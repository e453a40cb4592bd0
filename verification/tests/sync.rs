use boilr::fetch::{create_games_to_sync, get_all_games, mark_fetched, FetchError, SourceInfo};
use boilr::game_scan::{ExePath, ScannedGame};
use boilr::ident::{generate_app_id, generate_legacy_id};
use boilr::shortcut::Shortcut;
use boilr::sync::{collect_candidates, merge_game, merge_games, quote, sync_shortcuts};
use std::collections::HashMap;

fn game(name: &str) -> ScannedGame {
    let path = format!("/games/{name}/{name}.exe");
    ScannedGame {
        name: name.to_string(),
        app_id: generate_app_id(name, &path),
        path: ExePath { text: path, parent: Some(format!("/games/{name}")) },
        size_bytes: 2_000_000,
    }
}

fn id_of(name: &str) -> u32 {
    generate_legacy_id(name, &format!("/games/{name}/{name}.exe"))
}

fn fresh(name: &str) -> Shortcut {
    Shortcut {
        app_id: id_of(name),
        app_name: name.to_string(),
        exe: format!("\"/games/{name}/{name}.exe\""),
        start_dir: format!("\"/games/{name}\""),
        icon: String::new(),
        shortcut_path: String::new(),
        launch_options: String::new(),
        is_hidden: false,
        allow_desktop_config: true,
        allow_overlay: true,
        open_vr: false,
        dev_kit: false,
        dev_kit_game_id: String::new(),
        dev_kit_override_app_id: 0,
        last_play_time: 0,
        flatpak_app_id: String::new(),
        tags: vec![],
    }
}

fn foreign(app_id: u32, name: &str) -> Shortcut {
    Shortcut {
        app_id,
        app_name: name.to_string(),
        exe: "\"/opt/other/run\"".to_string(),
        start_dir: "\"/opt/other\"".to_string(),
        icon: "/icons/other.png".to_string(),
        shortcut_path: "x".to_string(),
        launch_options: "--fast".to_string(),
        is_hidden: true,
        allow_desktop_config: false,
        allow_overlay: false,
        open_vr: true,
        dev_kit: true,
        dev_kit_game_id: "dk".to_string(),
        dev_kit_override_app_id: 3,
        last_play_time: 99,
        flatpak_app_id: "org.x".to_string(),
        tags: vec!["mine".to_string()],
    }
}

fn sources(list: &[(&str, &[&str])]) -> Vec<(String, Vec<ScannedGame>)> {
    list.iter().map(|(s, games)| (s.to_string(), games.iter().map(|g| game(g)).collect())).collect()
}

#[test]
fn quote_puts_double_quotes_around() {
    assert_eq!(quote("/a b/c.exe"), "\"/a b/c.exe\"");
    assert_eq!(quote(""), "\"\"");
}

#[test]
fn candidates_are_flattened_in_order() {
    let all = collect_candidates(&sources(&[("A", &["X", "Y"]), ("B", &[]), ("C", &["Z"])]));
    let names: Vec<&str> = all.iter().map(|g| g.name.as_str()).collect();
    assert_eq!(names, vec!["X", "Y", "Z"]);
    assert!(collect_candidates(&vec![]).is_empty());
}

#[test]
fn a_new_game_is_inserted_with_default_user_fields() {
    let merged =
        sync_shortcuts(vec![], &sources(&[("Folder", &["Portal"])]), &HashMap::new());
    assert_eq!(merged, vec![fresh("Portal")]);
    assert!(merged[0].app_id >= 0x8000_0000);
}

#[test]
fn a_game_without_a_folder_gets_the_current_directory() {
    let lone = ScannedGame {
        name: "Lone".to_string(),
        path: ExePath { text: "lone.exe".to_string(), parent: None },
        size_bytes: 2_000_000,
        app_id: generate_app_id("Lone", "lone.exe"),
    };
    let merged = merge_games(vec![], &vec![lone], &HashMap::new());
    assert_eq!(merged[0].exe, "\"lone.exe\"");
    assert_eq!(merged[0].start_dir, "\".\"");
    assert_eq!(merged[0].app_id, generate_legacy_id("Lone", "lone.exe"));
}

#[test]
fn an_existing_shortcut_is_updated_and_keeps_the_users_fields() {
    let mut existing = foreign(id_of("Portal"), "Old name");
    existing.exe = "\"/old/place.exe\"".to_string();
    let merged = sync_shortcuts(
        vec![existing.clone()],
        &sources(&[("Folder", &["Portal"])]),
        &HashMap::new(),
    );
    assert_eq!(merged.len(), 1);
    let s = &merged[0];
    assert_eq!(s.app_id, id_of("Portal"));
    assert_eq!(s.app_name, "Portal");
    assert_eq!(s.exe, "\"/games/Portal/Portal.exe\"");
    assert_eq!(s.start_dir, "\"/games/Portal\"");
    let mut expected = existing;
    expected.app_name = s.app_name.clone();
    expected.exe = s.exe.clone();
    expected.start_dir = s.start_dir.clone();
    assert_eq!(*s, expected);
    assert!(s.is_hidden);
    assert_eq!(s.launch_options, "--fast");
    assert_eq!(s.tags, vec!["mine".to_string()]);
    assert_eq!(s.icon, "/icons/other.png");
}

#[test]
fn shortcuts_of_no_source_are_left_untouched() {
    let other = foreign(42, "Hand made");
    let merged = sync_shortcuts(
        vec![other.clone(), fresh("Doom")],
        &sources(&[("Folder", &["Portal"])]),
        &HashMap::new(),
    );
    assert_eq!(merged, vec![other, fresh("Doom"), fresh("Portal")]);
}

#[test]
fn an_empty_run_changes_nothing() {
    let catalog = vec![foreign(42, "Hand made"), fresh("Doom")];
    assert_eq!(sync_shortcuts(catalog.clone(), &vec![], &HashMap::new()), catalog);
    assert_eq!(sync_shortcuts(catalog.clone(), &sources(&[("A", &[])]), &HashMap::new()), catalog);
}

#[test]
fn renames_override_the_display_name_and_keep_the_identifier() {
    let mut renames = HashMap::new();
    renames.insert(id_of("Portal"), "Portal (modded)".to_string());
    renames.insert(7, "nobody".to_string());
    let merged = sync_shortcuts(vec![], &sources(&[("Folder", &["Portal", "Doom"])]), &renames);
    assert_eq!(merged.len(), 2);
    assert_eq!(merged[0].app_name, "Portal (modded)");
    assert_eq!(merged[0].app_id, id_of("Portal"));
    assert_eq!(merged[1].app_name, "Doom");

    let again = sync_shortcuts(merged.clone(), &sources(&[("Folder", &["Portal", "Doom"])]), &renames);
    assert_eq!(again, merged);
    let undone =
        sync_shortcuts(merged, &sources(&[("Folder", &["Portal", "Doom"])]), &HashMap::new());
    assert_eq!(undone[0].app_name, "Portal");
}

#[test]
fn every_shortcut_with_the_identifier_is_updated() {
    let mut a = foreign(id_of("Portal"), "one");
    a.is_hidden = false;
    let b = foreign(id_of("Portal"), "two");
    let merged =
        sync_shortcuts(vec![a, b], &sources(&[("Folder", &["Portal"])]), &HashMap::new());
    assert_eq!(merged.len(), 2);
    assert_eq!(merged[0].app_name, "Portal");
    assert_eq!(merged[1].app_name, "Portal");
    assert!(!merged[0].is_hidden);
    assert!(merged[1].is_hidden);
}

#[test]
fn the_same_game_from_two_sources_gives_one_shortcut() {
    let merged = sync_shortcuts(
        vec![],
        &sources(&[("A", &["Portal", "Doom"]), ("B", &["Portal"])]),
        &HashMap::new(),
    );
    assert_eq!(merged, vec![fresh("Portal"), fresh("Doom")]);
}

#[test]
fn merge_game_one_at_a_time() {
    let mut catalog = vec![fresh("Doom")];
    merge_game(&mut catalog, &game("Portal"), &HashMap::new());
    merge_game(&mut catalog, &game("Doom"), &HashMap::new());
    assert_eq!(catalog, vec![fresh("Doom"), fresh("Portal")]);
}

#[test]
fn merge_idempotence() {
    let start = vec![foreign(42, "Hand made"), foreign(id_of("Doom"), "DOOM!")];
    let found = sources(&[("A", &["Portal", "Doom"]), ("B", &["Quake", "Portal"])]);
    let mut renames = HashMap::new();
    renames.insert(id_of("Quake"), "Quake I".to_string());

    let first = sync_shortcuts(start.clone(), &found, &renames);
    let same = sync_shortcuts(start.clone(), &found, &renames);
    assert_eq!(first, same);
    let second = sync_shortcuts(first.clone(), &found, &renames);
    assert_eq!(second, first);
    assert_eq!(first.len(), 4);
}

#[test]
fn user_fields_set_after_a_run_survive_the_next() {
    let found = sources(&[("A", &["Portal", "Doom"])]);
    let first = sync_shortcuts(vec![], &found, &HashMap::new());
    let mut edited = first.clone();
    edited[0].is_hidden = true;
    edited[0].launch_options = "-novid".to_string();
    edited[1].tags = vec!["favourite".to_string()];
    edited[1].icon = "/my/icon.png".to_string();
    let second = sync_shortcuts(edited.clone(), &found, &HashMap::new());
    assert_eq!(second, edited);
    assert!(second[0].is_hidden);
}

#[test]
fn games_of_the_source_that_succeeded_are_merged() {
    let mut slots = create_games_to_sync(&vec![
        SourceInfo { name: "A".to_string(), enabled: true },
        SourceInfo { name: "B".to_string(), enabled: true },
    ]);
    mark_fetched(&mut slots, 0, Err(FetchError { message: "down".to_string() }));
    mark_fetched(&mut slots, 1, Ok(vec![game("Doom")]));
    let merged = sync_shortcuts(vec![fresh("Portal")], &get_all_games(&slots), &HashMap::new());
    assert_eq!(merged, vec![fresh("Portal"), fresh("Doom")]);
}
