//! What follows from the facts of a match: the alliance of each team, the
//! kind of the match and the state of the game.

use crate::model::{GameState, GameType, PlayerData, PlayerView, TeamData, TeamSide, TeamView, roster_view};
use crate::text::same_text;
use vstd::prelude::*;

verus! {

/// The two factions that fight for the Axis. Every other faction is Allied.
pub open spec fn is_axis_faction(faction: Seq<char>) -> bool {
    faction == "germans"@ || faction == "west_german"@
}

/// Two players of the roster belong to different alliances.
pub open spec fn roster_is_mixed(players: Seq<PlayerView>) -> bool {
    exists|i: int, j: int|
        0 <= i < j < players.len() && is_axis_faction(#[trigger] players[i].faction)
            != is_axis_faction(#[trigger] players[j].faction)
}

/// The alliance of a roster: that of its players where they share one, which
/// for a roster without players is the Allied one.
pub open spec fn roster_side(players: Seq<PlayerView>) -> TeamSide {
    if roster_is_mixed(players) {
        TeamSide::Mixed
    } else if players.len() > 0 && is_axis_faction(players[0].faction) {
        TeamSide::Axis
    } else {
        TeamSide::Allies
    }
}

/// How many players of the roster the computer plays.
pub open spec fn ai_count(players: Seq<PlayerView>) -> nat
    decreases players.len(),
{
    if players.len() == 0 {
        0
    } else {
        ai_count(players.drop_last()) + if players.last().ai {
            1nat
        } else {
            0nat
        }
    }
}

/// The kind of a match. It is classic where two unmixed, opposite sides hold
/// no computer player, and a match against the computer where, between two
/// such sides, one is played by the computer alone and the other by people
/// alone.
pub open spec fn match_type(left: TeamView, right: TeamView) -> GameType {
    let left_ai: nat = ai_count(left.players);
    let right_ai: nat = ai_count(right.players);
    if left.side != TeamSide::Mixed && right.side != TeamSide::Mixed && left.side != right.side {
        if left_ai == 0 && right_ai == 0 {
            GameType::Classic
        } else if (left_ai == 0 && right_ai == right.players.len()) || (right_ai == 0 && left_ai
            == left.players.len()) {
            GameType::AI
        } else {
            GameType::Custom
        }
    } else {
        GameType::Custom
    }
}

/// The state of the game, from what the log showed of the latest session.
pub open spec fn game_state(running: bool, ended: bool, loading: bool, started: bool) -> GameState {
    if !running {
        GameState::Closed
    } else if ended || !loading {
        GameState::Menu
    } else if started {
        GameState::InGame
    } else {
        GameState::Loading
    }
}

/// The count of computer players is at most the roster's length.
pub proof fn lemma_ai_count_bound(players: Seq<PlayerView>)
    ensures
        ai_count(players) <= players.len(),
    decreases players.len(),
{
    if players.len() > 0 {
        lemma_ai_count_bound(players.drop_last());
    }
}

/// A roster with a computer player counts at least one, and a roster with a
/// human player counts fewer than it has players.
pub proof fn lemma_ai_count_strict(players: Seq<PlayerView>, i: int)
    requires
        0 <= i < players.len(),
    ensures
        players[i].ai ==> ai_count(players) >= 1,
        !players[i].ai ==> ai_count(players) < players.len(),
    decreases players.len(),
{
    lemma_ai_count_bound(players.drop_last());
    if i < players.len() - 1 {
        lemma_ai_count_strict(players.drop_last(), i);
    }
}

/// Decides the state of the game.
pub fn determine_game_state(running: bool, ended: bool, loading: bool, started: bool) -> (r:
    GameState)
    ensures
        r == game_state(running, ended, loading, started),
{
    if !running {
        GameState::Closed
    } else if ended || !loading {
        GameState::Menu
    } else if started {
        GameState::InGame
    } else {
        GameState::Loading
    }
}

/// Counts the computer players of a team.
pub fn get_ai_count(team: &TeamData) -> (count: usize)
    ensures
        count == ai_count(team@.players),
{
    let mut count: usize = 0;
    let mut i: usize = 0;
    let ghost views = team@.players;
    while i < team.players.len()
        invariant
            i <= team.players.len(),
            views == team@.players,
            count == ai_count(views.take(i as int)),
            count <= i,
        decreases team.players.len() - i,
    {
        proof {
            assert(views.take(i + 1).drop_last() =~= views.take(i as int));
        }
        if team.players[i].ai {
            count += 1;
        }
        i += 1;
    }
    proof {
        assert(views.take(i as int) =~= views);
    }
    count
}

/// Decides the kind of a match from its two teams.
pub fn determine_game_type(left_team: &TeamData, right_team: &TeamData) -> (r: GameType)
    ensures
        r == match_type(left_team@, right_team@),
{
    let left_ai_count: usize = get_ai_count(left_team);
    let right_ai_count: usize = get_ai_count(right_team);
    if left_team.side != TeamSide::Mixed && right_team.side != TeamSide::Mixed && left_team.side
        != right_team.side {
        if left_ai_count == 0 && right_ai_count == 0 {
            return GameType::Classic;
        } else if (left_ai_count == 0 && right_ai_count == right_team.players.len()) || (
        right_ai_count == 0 && left_ai_count == left_team.players.len()) {
            return GameType::AI;
        }
    }
    GameType::Custom
}

/// Whether a player's faction fights for the Axis.
pub fn is_axis_player(player: &PlayerData) -> (r: bool)
    ensures
        r == is_axis_faction(player@.faction),
{
    same_text(player.faction.as_str(), "germans") || same_text(
        player.faction.as_str(),
        "west_german",
    )
}

/// Makes a team of a roster: the players as they are, and their alliance.
pub fn get_team_data(players: Vec<PlayerData>) -> (team: TeamData)
    ensures
        team.players == players,
        team.side == roster_side(roster_view(players@)),
{
    let ghost views = roster_view(players@);
    if players.len() == 0 {
        return TeamData { players, side: TeamSide::Allies };
    }
    let axis = is_axis_player(&players[0]);
    let mut i: usize = 1;
    while i < players.len()
        invariant
            1 <= i <= players.len(),
            views == roster_view(players@),
            axis == is_axis_faction(views[0].faction),
            forall|k: int| 0 <= k < i ==> is_axis_faction(#[trigger] views[k].faction) == axis,
        decreases players.len() - i,
    {
        if is_axis_player(&players[i]) != axis {
            proof {
                assert(is_axis_faction(views[0].faction) != is_axis_faction(
                    views[i as int].faction,
                ));
            }
            return TeamData { players, side: TeamSide::Mixed };
        }
        i += 1;
    }
    if axis {
        TeamData { players, side: TeamSide::Axis }
    } else {
        TeamData { players, side: TeamSide::Allies }
    }
}

/// While the game runs and a match is loading that has neither started nor
/// ended, the state is `Loading`; and while it runs and a match is loading,
/// the state is `Menu` only once the match has ended.
pub proof fn lemma_loading_state(running: bool, ended: bool, loading: bool, started: bool)
    requires
        running,
        loading,
    ensures
        !started && !ended ==> game_state(running, ended, loading, started) == GameState::Loading,
        game_state(running, ended, loading, started) == GameState::Menu ==> ended,
{
}

/// Some player of the roster fights for the Axis.
pub open spec fn has_axis_player(players: Seq<PlayerView>) -> bool {
    exists|i: int| 0 <= i < players.len() && is_axis_faction(#[trigger] players[i].faction)
}

/// Some player of the roster fights for the Allies.
pub open spec fn has_allied_player(players: Seq<PlayerView>) -> bool {
    exists|i: int| 0 <= i < players.len() && !is_axis_faction(#[trigger] players[i].faction)
}

/// The alliance of a roster by which alliances are present in it: mixed where
/// both are, Axis where only the Axis is, and Allied otherwise.
pub proof fn lemma_side_by_presence(players: Seq<PlayerView>)
    ensures
        roster_side(players) == (if has_axis_player(players) && has_allied_player(players) {
            TeamSide::Mixed
        } else if has_axis_player(players) {
            TeamSide::Axis
        } else {
            TeamSide::Allies
        }),
{
    if roster_is_mixed(players) {
        let (i, j) = choose|i: int, j: int|
            0 <= i < j < players.len() && is_axis_faction(#[trigger] players[i].faction)
                != is_axis_faction(#[trigger] players[j].faction);
        assert(is_axis_faction(players[i].faction) || is_axis_faction(players[j].faction));
        assert(!is_axis_faction(players[i].faction) || !is_axis_faction(players[j].faction));
    } else if has_axis_player(players) {
        let a = choose|i: int|
            0 <= i < players.len() && is_axis_faction(#[trigger] players[i].faction);
        if has_allied_player(players) {
            let b = choose|i: int|
                0 <= i < players.len() && !is_axis_faction(#[trigger] players[i].faction);
            if a < b {
                assert(is_axis_faction(players[a].faction) != is_axis_faction(
                    players[b].faction,
                ));
            } else {
                assert(is_axis_faction(players[b].faction) != is_axis_faction(
                    players[a].faction,
                ));
            }
        }
        if a > 0 {
            assert(is_axis_faction(players[0].faction) == is_axis_faction(players[a].faction));
        }
    } else if players.len() > 0 {
        assert(!is_axis_faction(players[0].faction));
    }
}

/// The alliances present in a roster are present in each rearrangement of it.
pub proof fn lemma_presence_carries(roster: Seq<PlayerView>, rearranged: Seq<PlayerView>)
    requires
        roster.to_multiset() == rearranged.to_multiset(),
    ensures
        has_axis_player(roster) ==> has_axis_player(rearranged),
        has_allied_player(roster) ==> has_allied_player(rearranged),
{
    roster.to_multiset_ensures();
    rearranged.to_multiset_ensures();
    if has_axis_player(roster) {
        let i = choose|i: int|
            0 <= i < roster.len() && is_axis_faction(#[trigger] roster[i].faction);
        assert(roster.contains(roster[i]));
        assert(rearranged.to_multiset().count(roster[i]) > 0);
        assert(rearranged.contains(roster[i]));
        let k = choose|k: int| 0 <= k < rearranged.len() && rearranged[k] == roster[i];
        assert(is_axis_faction(rearranged[k].faction));
    }
    if has_allied_player(roster) {
        let i = choose|i: int|
            0 <= i < roster.len() && !is_axis_faction(#[trigger] roster[i].faction);
        assert(roster.contains(roster[i]));
        assert(rearranged.to_multiset().count(roster[i]) > 0);
        assert(rearranged.contains(roster[i]));
        let k = choose|k: int| 0 <= k < rearranged.len() && rearranged[k] == roster[i];
        assert(!is_axis_faction(rearranged[k].faction));
    }
}

/// The alliance of a roster does not depend on the order of its players.
pub proof fn lemma_side_of_any_order(roster: Seq<PlayerView>, rearranged: Seq<PlayerView>)
    requires
        roster.to_multiset() == rearranged.to_multiset(),
    ensures
        roster_side(roster) == roster_side(rearranged),
{
    lemma_presence_carries(roster, rearranged);
    lemma_presence_carries(rearranged, roster);
    lemma_side_by_presence(roster);
    lemma_side_by_presence(rearranged);
}

/// A roster of Axis factions alone is an Axis roster in whatever order its
/// players stand: no rearrangement of it is mixed.
pub proof fn lemma_axis_roster_any_order(roster: Seq<PlayerView>, rearranged: Seq<PlayerView>)
    requires
        roster.len() > 0,
        forall|i: int| 0 <= i < roster.len() ==> is_axis_faction(#[trigger] roster[i].faction),
        roster.to_multiset() == rearranged.to_multiset(),
    ensures
        roster_side(roster) == TeamSide::Axis,
        roster_side(rearranged) == TeamSide::Axis,
{
    lemma_side_of_any_order(roster, rearranged);
}

/// A team in which a person and the computer play side by side makes the
/// match a custom one, whoever stands on the other side.
pub proof fn lemma_shared_team_is_custom(team: TeamView, other: TeamView, human: int, computer: int)
    requires
        0 <= human < team.players.len(),
        0 <= computer < team.players.len(),
        !team.players[human].ai,
        team.players[computer].ai,
    ensures
        match_type(team, other) == GameType::Custom,
        match_type(other, team) == GameType::Custom,
{
    lemma_ai_count_strict(team.players, human);
    lemma_ai_count_strict(team.players, computer);
}

} // verus!
