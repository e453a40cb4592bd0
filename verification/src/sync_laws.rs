//! What holds of every merge: nothing is lost, the user's fields stay, each
//! game ends up in the catalog, and a second run changes nothing.

use crate::game_scan::ScannedGameView;
use crate::shortcut::{same_user_fields, ShortcutView};
use crate::fetch::{fetched_games, lemma_fetched_games_hold, StatusView};
use crate::sync::{
    all_candidates, candidate_id, derived_matches, has_id, merge_all, merge_first, merge_one,
    refreshed,
};
use vstd::prelude::*;

verus! {

/// The position of the last of the first `n` games that has the identifier
/// `id`; -1 where none of them has it.
pub open spec fn last_with_id(games: Seq<ScannedGameView>, n: nat, id: u32) -> int
    decreases n,
{
    if n == 0 || n > games.len() {
        -1
    } else if candidate_id(games[n - 1]) == id {
        n - 1
    } else {
        last_with_id(games, (n - 1) as nat, id)
    }
}

/// Whether two shortcuts agree in the fields that a merge derives from a game:
/// identifier, name, launch target and working directory.
pub open spec fn same_derived_fields(a: ShortcutView, b: ShortcutView) -> bool {
    &&& a.app_id == b.app_id
    &&& a.app_name == b.app_name
    &&& a.exe == b.exe
    &&& a.start_dir == b.start_dir
}

/// Whether a catalog already holds what a merge of `games` would put there:
/// each game's identifier has a shortcut, and each shortcut whose identifier
/// some game has bears the derived fields of the last such game.
pub open spec fn settled(
    catalog: Seq<ShortcutView>,
    games: Seq<ScannedGameView>,
    renames: Map<u32, Seq<char>>,
) -> bool {
    &&& forall|k: int| 0 <= k < games.len() ==> has_id(catalog, candidate_id(#[trigger] games[k]))
    &&& forall|i: int|
        0 <= i < catalog.len() && last_with_id(games, games.len(), (#[trigger] catalog[i]).app_id)
            >= 0 ==> derived_matches(
            catalog[i],
            games[last_with_id(games, games.len(), catalog[i].app_id)],
            renames,
        )
}

proof fn lemma_last_with_id_range(games: Seq<ScannedGameView>, n: nat, id: u32)
    requires
        n <= games.len(),
    ensures
        -1 <= last_with_id(games, n, id) < n,
        last_with_id(games, n, id) >= 0 ==> candidate_id(games[last_with_id(games, n, id)]) == id,
        last_with_id(games, n, id) < 0 ==> forall|k: int|
            0 <= k < n ==> candidate_id(#[trigger] games[k]) != id,
    decreases n,
{
    if n > 0 && candidate_id(games[n - 1]) != id {
        lemma_last_with_id_range(games, (n - 1) as nat, id);
    }
}

/// What the merge of the first `n` games leaves in the catalog.
proof fn lemma_merge_first_shape(
    catalog: Seq<ShortcutView>,
    games: Seq<ScannedGameView>,
    n: nat,
    renames: Map<u32, Seq<char>>,
)
    requires
        n <= games.len(),
    ensures
        merge_first(catalog, games, n, renames).len() >= catalog.len(),
        forall|i: int|
            0 <= i < catalog.len() ==> {
                let merged = #[trigger] merge_first(catalog, games, n, renames)[i];
                &&& merged.app_id == catalog[i].app_id
                &&& same_user_fields(merged, catalog[i])
            },
        forall|k: int|
            0 <= k < n ==> has_id(
                merge_first(catalog, games, n, renames),
                candidate_id(#[trigger] games[k]),
            ),
        forall|i: int|
            0 <= i < merge_first(catalog, games, n, renames).len() ==> {
                let merged = #[trigger] merge_first(catalog, games, n, renames)[i];
                let k = last_with_id(games, n, merged.app_id);
                &&& k >= 0 ==> derived_matches(merged, games[k], renames)
                &&& k < 0 ==> i < catalog.len() && merged == catalog[i]
            },
    decreases n,
{
    if n > 0 {
        lemma_merge_first_shape(catalog, games, (n - 1) as nat, renames);
        let prev = merge_first(catalog, games, (n - 1) as nat, renames);
        let game = games[n - 1];
        let id = candidate_id(game);
        let next = merge_first(catalog, games, n, renames);
        assert(next == merge_one(prev, game, renames));
        if has_id(prev, id) {
            let w = choose|w: int| 0 <= w < prev.len() && (#[trigger] prev[w]).app_id == id;
            assert(next[w].app_id == id);
            assert forall|k: int| 0 <= k < n implies has_id(
                next,
                candidate_id(#[trigger] games[k]),
            ) by {
                if k < n - 1 {
                    let kid = candidate_id(games[k]);
                    let v = choose|v: int| 0 <= v < prev.len() && (#[trigger] prev[v]).app_id == kid;
                    assert(next[v].app_id == kid);
                }
            }
        } else {
            let last = prev.len() as int;
            assert(next[last].app_id == id);
            assert forall|k: int| 0 <= k < n implies has_id(
                next,
                candidate_id(#[trigger] games[k]),
            ) by {
                if k < n - 1 {
                    let kid = candidate_id(games[k]);
                    let v = choose|v: int| 0 <= v < prev.len() && (#[trigger] prev[v]).app_id == kid;
                    assert(next[v].app_id == kid);
                }
            }
            assert forall|i: int| 0 <= i < next.len() implies {
                let merged = #[trigger] next[i];
                let k = last_with_id(games, n, merged.app_id);
                &&& k >= 0 ==> derived_matches(merged, games[k], renames)
                &&& k < 0 ==> i < catalog.len() && merged == catalog[i]
            } by {
                if i < prev.len() {
                    assert(next[i] == prev[i]);
                    assert(prev[i].app_id != id);
                }
            }
        }
    }
}

/// A merge loses nothing and leaves the user's fields alone: the catalog's
/// shortcuts stay where they are, each with its identifier and with every field
/// that belongs to the user; one whose identifier no game has is not touched at
/// all.
pub proof fn lemma_merge_keeps_catalog(
    catalog: Seq<ShortcutView>,
    games: Seq<ScannedGameView>,
    renames: Map<u32, Seq<char>>,
)
    ensures
        merge_all(catalog, games, renames).len() >= catalog.len(),
        forall|i: int|
            0 <= i < catalog.len() ==> {
                let merged = #[trigger] merge_all(catalog, games, renames)[i];
                &&& merged.app_id == catalog[i].app_id
                &&& same_user_fields(merged, catalog[i])
                &&& (forall|k: int|
                    0 <= k < games.len() ==> candidate_id(#[trigger] games[k]) != catalog[i].app_id)
                    ==> merged == catalog[i]
            },
{
    lemma_merge_first_shape(catalog, games, games.len(), renames);
    assert forall|i: int| 0 <= i < catalog.len() implies {
        let merged = #[trigger] merge_all(catalog, games, renames)[i];
        (forall|k: int|
            0 <= k < games.len() ==> candidate_id(#[trigger] games[k]) != catalog[i].app_id)
            ==> merged == catalog[i]
    } by {
        lemma_last_with_id_range(games, games.len(), catalog[i].app_id);
    }
}

/// After a merge every game has its shortcut: one bears the game's identifier,
/// and each shortcut with that identifier bears the name, launch target and
/// working directory of the last game that has it.
pub proof fn lemma_merge_holds_every_game(
    catalog: Seq<ShortcutView>,
    games: Seq<ScannedGameView>,
    renames: Map<u32, Seq<char>>,
    k: int,
)
    requires
        0 <= k < games.len(),
    ensures
        has_id(merge_all(catalog, games, renames), candidate_id(games[k])),
        forall|i: int|
            0 <= i < merge_all(catalog, games, renames).len() && (#[trigger] merge_all(
                catalog,
                games,
                renames,
            )[i]).app_id == candidate_id(games[k]) ==> derived_matches(
                merge_all(catalog, games, renames)[i],
                games[last_with_id(games, games.len(), candidate_id(games[k]))],
                renames,
            ),
{
    lemma_merge_first_shape(catalog, games, games.len(), renames);
    lemma_last_with_id_range(games, games.len(), candidate_id(games[k]));
}

/// What a merge leaves behind is settled.
pub proof fn lemma_merge_settles(
    catalog: Seq<ShortcutView>,
    games: Seq<ScannedGameView>,
    renames: Map<u32, Seq<char>>,
)
    ensures
        settled(merge_all(catalog, games, renames), games, renames),
{
    lemma_merge_first_shape(catalog, games, games.len(), renames);
}

/// In a catalog that has a shortcut for each of the games, the merge of the
/// first `n` of them only updates: each shortcut is refreshed from the last of
/// these games that has its identifier.
proof fn lemma_merge_first_updates(
    catalog: Seq<ShortcutView>,
    games: Seq<ScannedGameView>,
    n: nat,
    renames: Map<u32, Seq<char>>,
)
    requires
        n <= games.len(),
        forall|k: int| 0 <= k < games.len() ==> has_id(catalog, candidate_id(#[trigger] games[k])),
    ensures
        merge_first(catalog, games, n, renames).len() == catalog.len(),
        forall|i: int|
            0 <= i < catalog.len() ==> #[trigger] merge_first(catalog, games, n, renames)[i] == (
            if last_with_id(games, n, catalog[i].app_id) >= 0 {
                refreshed(catalog[i], games[last_with_id(games, n, catalog[i].app_id)], renames)
            } else {
                catalog[i]
            }),
    decreases n,
{
    if n > 0 {
        lemma_merge_first_updates(catalog, games, (n - 1) as nat, renames);
        let prev = merge_first(catalog, games, (n - 1) as nat, renames);
        let game = games[n - 1];
        let id = candidate_id(game);
        let w = choose|w: int| 0 <= w < catalog.len() && (#[trigger] catalog[w]).app_id == id;
        assert(has_id(catalog, candidate_id(games[n - 1])));
        lemma_last_with_id_range(games, (n - 1) as nat, id);
        assert(prev[w].app_id == id);
        assert(has_id(prev, id));
        assert forall|i: int| 0 <= i < catalog.len() implies #[trigger] merge_first(
            catalog,
            games,
            n,
            renames,
        )[i] == (if last_with_id(games, n, catalog[i].app_id) >= 0 {
            refreshed(catalog[i], games[last_with_id(games, n, catalog[i].app_id)], renames)
        } else {
            catalog[i]
        }) by {
            lemma_last_with_id_range(games, (n - 1) as nat, catalog[i].app_id);
            assert(prev[i].app_id == catalog[i].app_id);
        }
    }
}

/// A settled catalog is a fixed point of the merge.
pub proof fn lemma_settled_is_fixed(
    catalog: Seq<ShortcutView>,
    games: Seq<ScannedGameView>,
    renames: Map<u32, Seq<char>>,
)
    requires
        settled(catalog, games, renames),
    ensures
        merge_all(catalog, games, renames) == catalog,
{
    lemma_merge_first_updates(catalog, games, games.len(), renames);
    assert(merge_all(catalog, games, renames) =~= catalog);
}

/// Merge idempotence: merging the same games a second time changes nothing.
pub proof fn lemma_merge_idempotent(
    catalog: Seq<ShortcutView>,
    games: Seq<ScannedGameView>,
    renames: Map<u32, Seq<char>>,
)
    ensures
        merge_all(merge_all(catalog, games, renames), games, renames) == merge_all(
            catalog,
            games,
            renames,
        ),
{
    lemma_merge_settles(catalog, games, renames);
    lemma_settled_is_fixed(merge_all(catalog, games, renames), games, renames);
}

/// What the user changes after a run survives the next one: if `edited` is the
/// merged catalog with only fields of the user changed, a second merge of the
/// same games returns `edited` as it is.
pub proof fn lemma_user_edits_survive(
    catalog: Seq<ShortcutView>,
    games: Seq<ScannedGameView>,
    renames: Map<u32, Seq<char>>,
    edited: Seq<ShortcutView>,
)
    requires
        edited.len() == merge_all(catalog, games, renames).len(),
        forall|i: int|
            0 <= i < edited.len() ==> same_derived_fields(
                #[trigger] edited[i],
                merge_all(catalog, games, renames)[i],
            ),
    ensures
        merge_all(edited, games, renames) == edited,
{
    let merged = merge_all(catalog, games, renames);
    lemma_merge_settles(catalog, games, renames);
    assert forall|k: int| 0 <= k < games.len() implies has_id(
        edited,
        candidate_id(#[trigger] games[k]),
    ) by {
        let id = candidate_id(games[k]);
        let w = choose|w: int| 0 <= w < merged.len() && (#[trigger] merged[w]).app_id == id;
        assert(edited[w].app_id == id);
    }
    assert forall|i: int|
        0 <= i < edited.len() && last_with_id(games, games.len(), (#[trigger] edited[i]).app_id)
            >= 0 implies derived_matches(
        edited[i],
        games[last_with_id(games, games.len(), edited[i].app_id)],
        renames,
    ) by {
        assert(merged[i].app_id == edited[i].app_id);
    }
    lemma_settled_is_fixed(edited, games, renames);
}

/// Each game of each source is in the row of all games.
pub proof fn lemma_all_candidates_hold(
    sources: Seq<(Seq<char>, Seq<ScannedGameView>)>,
    s: int,
    j: int,
)
    requires
        0 <= s < sources.len(),
        0 <= j < sources[s].1.len(),
    ensures
        exists|k: int|
            0 <= k < all_candidates(sources).len() && #[trigger] all_candidates(sources)[k]
                == sources[s].1[j],
    decreases sources.len(),
{
    let all = all_candidates(sources);
    let front = all_candidates(sources.drop_last());
    if s == sources.len() - 1 {
        let k = front.len() + j;
        assert(all[k] == sources[s].1[j]);
    } else {
        lemma_all_candidates_hold(sources.drop_last(), s, j);
        let k = choose|k: int| 0 <= k < front.len() && #[trigger] front[k] == sources[s].1[j];
        assert(all[k] == front[k]);
    }
}

/// Partial-failure isolation: what a source brought back is merged whatever
/// became of the other sources. If slot `b` of the set holds games, then after
/// a merge of what was collected each of them has its shortcut.
pub proof fn lemma_failure_is_isolated(
    slots: Seq<(Seq<char>, StatusView)>,
    catalog: Seq<ShortcutView>,
    renames: Map<u32, Seq<char>>,
    b: int,
    j: int,
)
    requires
        0 <= b < slots.len(),
        slots[b].1 is Games,
        0 <= j < slots[b].1->Games_0.len(),
    ensures
        has_id(
            merge_all(catalog, all_candidates(fetched_games(slots, slots.len())), renames),
            candidate_id(slots[b].1->Games_0[j]),
        ),
{
    let collected = fetched_games(slots, slots.len());
    lemma_fetched_games_hold(slots, slots.len(), b);
    let s = choose|s: int|
        0 <= s < collected.len() && #[trigger] collected[s] == (slots[b].0, slots[b].1->Games_0);
    lemma_all_candidates_hold(collected, s, j);
    let games = all_candidates(collected);
    let k = choose|k: int| 0 <= k < games.len() && #[trigger] games[k] == collected[s].1[j];
    lemma_merge_holds_every_game(catalog, games, renames, k);
}

} // verus!
