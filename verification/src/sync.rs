//! The sync engine's merge: what the sources found goes into the catalog.
//!
//! Each game is looked up in the catalog by its identifier. A shortcut that is
//! there gets the game's name, launch target and working directory and keeps
//! every field that belongs to the user; a game without a shortcut gets a new
//! one at the end of the catalog. Nothing is ever removed.

use crate::game_scan::{clone_game, game_views, ScannedGame, ScannedGameView};
use crate::ident::{generate_legacy_id, identifier_of};
use crate::shortcut::{shortcut_views, Shortcut, ShortcutView};
use std::collections::HashMap;
use vstd::prelude::*;
use vstd::string::StringExecFns;

verus! {

/// A rename map as contracts see it: from identifier to the name that the
/// user chose.
pub open spec fn rename_view(renames: HashMap<u32, String>) -> Map<u32, Seq<char>> {
    renames@.map_values(|name: String| name@)
}

/// What the sources of a run handed in, by source name.
pub open spec fn source_views(sources: Seq<(String, Vec<ScannedGame>)>) -> Seq<
    (Seq<char>, Seq<ScannedGameView>),
> {
    Seq::new(sources.len(), |i: int| (sources[i].0@, game_views(sources[i].1@)))
}

/// The games of all sources in one row: source after source, each source's
/// games in its own order.
pub open spec fn all_candidates(sources: Seq<(Seq<char>, Seq<ScannedGameView>)>) -> Seq<
    ScannedGameView,
>
    decreases sources.len(),
{
    if sources.len() == 0 {
        Seq::empty()
    } else {
        all_candidates(sources.drop_last()) + sources.last().1
    }
}

/// The identifier under which a game is kept in the catalog.
pub open spec fn candidate_id(game: ScannedGameView) -> u32 {
    identifier_of(game.path.text, game.name)
}

/// The name a game is shown under: the user's override for its identifier
/// where the rename map has one, else the game's own name.
pub open spec fn display_name(game: ScannedGameView, renames: Map<u32, Seq<char>>) -> Seq<char> {
    if renames.contains_key(candidate_id(game)) {
        renames[candidate_id(game)]
    } else {
        game.name
    }
}

/// A text between double quotes.
pub open spec fn quoted(text: Seq<char>) -> Seq<char> {
    seq!['"'] + text + seq!['"']
}

/// The launch target of a game: its executable's path, quoted.
pub open spec fn launch_target(game: ScannedGameView) -> Seq<char> {
    quoted(game.path.text)
}

/// The working directory of a game: the folder of its executable, quoted; the
/// current directory where the path names no folder.
pub open spec fn working_dir(game: ScannedGameView) -> Seq<char> {
    quoted(
        match game.path.parent {
            Some(parent) => parent,
            None => seq!['.'],
        },
    )
}

/// Whether a shortcut's name, launch target and working directory are those
/// of `game`.
pub open spec fn derived_matches(
    shortcut: ShortcutView,
    game: ScannedGameView,
    renames: Map<u32, Seq<char>>,
) -> bool {
    &&& shortcut.app_name == display_name(game, renames)
    &&& shortcut.exe == launch_target(game)
    &&& shortcut.start_dir == working_dir(game)
}

/// A shortcut after an update from `game`: the derived fields are the game's,
/// everything else stays.
pub open spec fn refreshed(
    shortcut: ShortcutView,
    game: ScannedGameView,
    renames: Map<u32, Seq<char>>,
) -> ShortcutView {
    ShortcutView {
        app_name: display_name(game, renames),
        exe: launch_target(game),
        start_dir: working_dir(game),
        ..shortcut
    }
}

/// The shortcut that is made for a game which has none: the user's fields
/// hold their defaults.
pub open spec fn new_shortcut(game: ScannedGameView, renames: Map<u32, Seq<char>>) -> ShortcutView {
    ShortcutView {
        app_id: candidate_id(game),
        app_name: display_name(game, renames),
        exe: launch_target(game),
        start_dir: working_dir(game),
        icon: Seq::empty(),
        shortcut_path: Seq::empty(),
        launch_options: Seq::empty(),
        is_hidden: false,
        allow_desktop_config: true,
        allow_overlay: true,
        open_vr: false,
        dev_kit: false,
        dev_kit_game_id: Seq::empty(),
        dev_kit_override_app_id: 0,
        last_play_time: 0,
        flatpak_app_id: Seq::empty(),
        tags: Seq::empty(),
    }
}

/// Whether the catalog holds a shortcut with this identifier.
pub open spec fn has_id(catalog: Seq<ShortcutView>, id: u32) -> bool {
    exists|i: int| 0 <= i < catalog.len() && (#[trigger] catalog[i]).app_id == id
}

/// The catalog after one game was merged into it: every shortcut with the
/// game's identifier is updated; where there is none, a new one is added at the
/// end.
pub open spec fn merge_one(
    catalog: Seq<ShortcutView>,
    game: ScannedGameView,
    renames: Map<u32, Seq<char>>,
) -> Seq<ShortcutView> {
    if has_id(catalog, candidate_id(game)) {
        Seq::new(
            catalog.len(),
            |i: int|
                if catalog[i].app_id == candidate_id(game) {
                    refreshed(catalog[i], game, renames)
                } else {
                    catalog[i]
                },
        )
    } else {
        catalog.push(new_shortcut(game, renames))
    }
}

/// The catalog after the first `n` games were merged into it, one after the
/// other.
pub open spec fn merge_first(
    catalog: Seq<ShortcutView>,
    games: Seq<ScannedGameView>,
    n: nat,
    renames: Map<u32, Seq<char>>,
) -> Seq<ShortcutView>
    decreases n,
{
    if n == 0 || n > games.len() {
        catalog
    } else {
        merge_one(merge_first(catalog, games, (n - 1) as nat, renames), games[n - 1], renames)
    }
}

/// The catalog after all games were merged into it.
pub open spec fn merge_all(
    catalog: Seq<ShortcutView>,
    games: Seq<ScannedGameView>,
    renames: Map<u32, Seq<char>>,
) -> Seq<ShortcutView> {
    merge_first(catalog, games, games.len(), renames)
}

/// Puts a text between double quotes.
pub fn quote(text: &str) -> (out: String)
    ensures
        out@ == quoted(text@),
{
    proof {
        reveal_strlit("\"");
    }
    let mut out = String::from_str("\"");
    out.append(text);
    out.append("\"");
    assert(out@ =~= quoted(text@));
    out
}

/// Puts the games of all sources in one row.
pub fn collect_candidates(sources: &Vec<(String, Vec<ScannedGame>)>) -> (games: Vec<ScannedGame>)
    ensures
        game_views(games@) == all_candidates(source_views(sources@)),
{
    let mut games: Vec<ScannedGame> = Vec::new();
    let n = sources.len();
    let mut i: usize = 0;
    let ghost all = source_views(sources@);
    assert(all.take(0) =~= Seq::empty());
    assert(game_views(games@) =~= all_candidates(all.take(0)));
    while i < n
        invariant
            n == sources@.len(),
            i <= n,
            all == source_views(sources@),
            game_views(games@) == all_candidates(all.take(i as int)),
        decreases n - i,
    {
        let list = &sources[i].1;
        let m = list.len();
        let mut j: usize = 0;
        let ghost before = game_views(games@);
        assert(game_views(games@) =~= before + game_views(list@).take(0));
        while j < m
            invariant
                m == list@.len(),
                j <= m,
                game_views(games@) == before + game_views(list@).take(j as int),
            decreases m - j,
        {
            let ghost so_far = game_views(games@);
            games.push(clone_game(&list[j]));
            assert(game_views(games@) =~= so_far.push(list@[j as int]@));
            j = j + 1;
            assert(game_views(list@).take(j as int) =~= game_views(list@).take(j - 1).push(
                list@[j - 1]@,
            ));
        }
        i = i + 1;
        proof {
            assert(game_views(list@).take(m as int) =~= game_views(list@));
            assert(all.take(i as int).drop_last() =~= all.take(i - 1));
            assert(all.take(i as int).last().1 == game_views(list@));
        }
    }
    assert(all.take(n as int) =~= all);
    games
}

/// Merges one game into the catalog.
pub fn merge_game(catalog: &mut Vec<Shortcut>, game: &ScannedGame, renames: &HashMap<u32, String>)
    ensures
        shortcut_views(final(catalog)@) == merge_one(
            shortcut_views(old(catalog)@),
            game@,
            rename_view(*renames),
        ),
{
    let ghost before = shortcut_views(old(catalog)@);
    let ghost names = rename_view(*renames);
    let id = generate_legacy_id(game.name.as_str(), game.path.text.as_str());
    let n = catalog.len();
    let mut found = false;
    let mut i: usize = 0;
    while i < n
        invariant
            n == catalog@.len(),
            n == before.len(),
            i <= n,
            id == candidate_id(game@),
            names == rename_view(*renames),
            found <==> exists|j: int| 0 <= j < i && (#[trigger] before[j]).app_id == id,
            forall|j: int|
                0 <= j < i ==> (#[trigger] catalog@[j])@ == (if before[j].app_id == id {
                    refreshed(before[j], game@, names)
                } else {
                    before[j]
                }),
            forall|j: int| i <= j < n ==> (#[trigger] catalog@[j])@ == before[j],
        decreases n - i,
    {
        if catalog[i].app_id == id {
            let name = match renames.get(&id) {
                Some(rename) => rename.clone(),
                None => game.name.clone(),
            };
            let exe = quote(game.path.text.as_str());
            let start_dir = match &game.path.parent {
                Some(parent) => quote(parent.as_str()),
                None => {
                    proof {
                        reveal_strlit(".");
                        assert("."@ =~= seq!['.']);
                    }
                    quote(".")
                },
            };
            let ghost at_entry = catalog@;
            catalog[i].app_name = name;
            catalog[i].exe = exe;
            catalog[i].start_dir = start_dir;
            found = true;
            assert(catalog@[i as int]@ == refreshed(before[i as int], game@, names));
            assert(forall|j: int| 0 <= j < n && j != i ==> catalog@[j] == at_entry[j]);
        }
        i = i + 1;
    }
    if !found {
        let name = match renames.get(&id) {
            Some(rename) => rename.clone(),
            None => game.name.clone(),
        };
        let exe = quote(game.path.text.as_str());
        let start_dir = match &game.path.parent {
            Some(parent) => quote(parent.as_str()),
            None => {
                proof {
                    reveal_strlit(".");
                    assert("."@ =~= seq!['.']);
                }
                quote(".")
            },
        };
        let added = Shortcut {
            app_id: id,
            app_name: name,
            exe,
            start_dir,
            icon: String::new(),
            shortcut_path: String::new(),
            launch_options: String::new(),
            is_hidden: false,
            allow_desktop_config: true,
            allow_overlay: true,
            open_vr: false,
            dev_kit: false,
            dev_kit_game_id: String::new(),
            dev_kit_override_app_id: 0,
            last_play_time: 0,
            flatpak_app_id: String::new(),
            tags: Vec::new(),
        };
        proof {
            assert(added@.tags =~= Seq::<Seq<char>>::empty());
            assert(added@ == new_shortcut(game@, names));
        }
        catalog.push(added);
        assert(!has_id(before, id));
        assert(shortcut_views(catalog@) =~= before.push(new_shortcut(game@, names)));
    } else {
        assert(has_id(before, id));
        assert(shortcut_views(catalog@) =~= merge_one(before, game@, names));
    }
}

/// The merge of a sync run: every game of every source goes into the catalog,
/// in the order of the sources and, within a source, of its games. The result
/// is a function of the three arguments alone: the same catalog, games and
/// rename map give the same catalog again.
pub fn sync_shortcuts(
    catalog: Vec<Shortcut>,
    platform_shortcuts: &Vec<(String, Vec<ScannedGame>)>,
    renames: &HashMap<u32, String>,
) -> (updated: Vec<Shortcut>)
    ensures
        shortcut_views(updated@) == merge_all(
            shortcut_views(catalog@),
            all_candidates(source_views(platform_shortcuts@)),
            rename_view(*renames),
        ),
{
    let games = collect_candidates(platform_shortcuts);
    merge_games(catalog, &games, renames)
}

/// Merges a row of games into the catalog, first to last.
pub fn merge_games(catalog: Vec<Shortcut>, games: &Vec<ScannedGame>, renames: &HashMap<u32, String>) -> (updated: Vec<Shortcut>)
    ensures
        shortcut_views(updated@) == merge_all(
            shortcut_views(catalog@),
            game_views(games@),
            rename_view(*renames),
        ),
{
    let ghost before = shortcut_views(catalog@);
    let mut updated = catalog;
    let n = games.len();
    let mut i: usize = 0;
    while i < n
        invariant
            n == games@.len(),
            i <= n,
            shortcut_views(updated@) == merge_first(
                before,
                game_views(games@),
                i as nat,
                rename_view(*renames),
            ),
        decreases n - i,
    {
        merge_game(&mut updated, &games[i], renames);
        i = i + 1;
    }
    updated
}

} // verus!
