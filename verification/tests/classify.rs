use coh3_log::classify::{
    determine_game_state, determine_game_type, get_ai_count, get_team_data, is_axis_player,
};
use coh3_log::model::{GameState, GameType, PlayerData, TeamData, TeamSide};

fn player(faction: &str, ai: bool) -> PlayerData {
    PlayerData {
        ai,
        faction: faction.to_string(),
        relic_id: if ai { "-1".to_string() } else { "42".to_string() },
        name: "n".to_string(),
        position: 0,
        steam_id: String::new(),
        rank: -1,
    }
}

fn team(side: TeamSide, humans: usize, computers: usize) -> TeamData {
    let mut players = Vec::new();
    for _ in 0..humans {
        players.push(player("x", false));
    }
    for _ in 0..computers {
        players.push(player("x", true));
    }
    TeamData { players, side }
}

#[test]
fn game_state_table() {
    for ended in [false, true] {
        for loading in [false, true] {
            for started in [false, true] {
                assert_eq!(
                    determine_game_state(false, ended, loading, started),
                    GameState::Closed
                );
            }
        }
    }
    assert_eq!(determine_game_state(true, false, false, false), GameState::Menu);
    assert_eq!(determine_game_state(true, false, false, true), GameState::Menu);
    assert_eq!(determine_game_state(true, true, true, true), GameState::Menu);
    assert_eq!(determine_game_state(true, true, true, false), GameState::Menu);
    assert_eq!(determine_game_state(true, true, false, false), GameState::Menu);
    assert_eq!(determine_game_state(true, false, true, false), GameState::Loading);
    assert_eq!(determine_game_state(true, false, true, true), GameState::InGame);
}

#[test]
fn axis_factions() {
    assert!(is_axis_player(&player("germans", false)));
    assert!(is_axis_player(&player("west_german", true)));
    assert!(!is_axis_player(&player("german", false)));
    assert!(!is_axis_player(&player("germans_campaign", false)));
    assert!(!is_axis_player(&player("americans", false)));
    assert!(!is_axis_player(&player("", false)));
}

#[test]
fn side_of_a_roster() {
    assert_eq!(get_team_data(Vec::new()).side, TeamSide::Allies);
    assert_eq!(get_team_data(vec![player("germans", false)]).side, TeamSide::Axis);
    assert_eq!(get_team_data(vec![player("soviet", false)]).side, TeamSide::Allies);
    assert_eq!(
        get_team_data(vec![player("germans", false), player("west_german", true)]).side,
        TeamSide::Axis
    );
    assert_eq!(
        get_team_data(vec![player("british", false), player("americans", true)]).side,
        TeamSide::Allies
    );
    assert_eq!(
        get_team_data(vec![player("british", false), player("germans", true)]).side,
        TeamSide::Mixed
    );
    assert_eq!(
        get_team_data(vec![
            player("germans", false),
            player("british", false),
            player("germans", false),
            player("germans", false)
        ])
        .side,
        TeamSide::Mixed
    );
}

#[test]
fn axis_roster_in_every_order() {
    let factions = ["germans", "west_german", "germans"];
    let orders = [[0, 1, 2], [0, 2, 1], [1, 0, 2], [1, 2, 0], [2, 0, 1], [2, 1, 0]];
    for order in orders {
        let roster: Vec<PlayerData> = order.iter().map(|&i| player(factions[i], i == 1)).collect();
        let team = get_team_data(roster.clone());
        assert_eq!(team.side, TeamSide::Axis);
        assert_eq!(team.players, roster);
    }
}

#[test]
fn counting_computer_players() {
    assert_eq!(get_ai_count(&team(TeamSide::Axis, 0, 0)), 0);
    assert_eq!(get_ai_count(&team(TeamSide::Axis, 3, 0)), 0);
    assert_eq!(get_ai_count(&team(TeamSide::Axis, 1, 2)), 2);
    assert_eq!(get_ai_count(&team(TeamSide::Mixed, 0, 4)), 4);
}

#[test]
fn kinds_of_match() {
    let axis = TeamSide::Axis;
    let allies = TeamSide::Allies;
    let mixed = TeamSide::Mixed;
    assert_eq!(determine_game_type(&team(axis, 2, 0), &team(allies, 2, 0)), GameType::Classic);
    assert_eq!(determine_game_type(&team(allies, 1, 0), &team(axis, 4, 0)), GameType::Classic);
    assert_eq!(determine_game_type(&team(axis, 2, 0), &team(allies, 0, 2)), GameType::AI);
    assert_eq!(determine_game_type(&team(axis, 0, 3), &team(allies, 1, 0)), GameType::AI);
    assert_eq!(determine_game_type(&team(axis, 0, 3), &team(allies, 0, 0)), GameType::AI);
    assert_eq!(determine_game_type(&team(axis, 1, 1), &team(allies, 2, 0)), GameType::Custom);
    assert_eq!(determine_game_type(&team(axis, 2, 0), &team(allies, 1, 1)), GameType::Custom);
    assert_eq!(determine_game_type(&team(axis, 0, 2), &team(allies, 0, 2)), GameType::Custom);
    assert_eq!(determine_game_type(&team(axis, 2, 0), &team(axis, 2, 0)), GameType::Custom);
    assert_eq!(determine_game_type(&team(allies, 2, 0), &team(allies, 0, 2)), GameType::Custom);
    assert_eq!(determine_game_type(&team(mixed, 2, 0), &team(allies, 2, 0)), GameType::Custom);
    assert_eq!(determine_game_type(&team(axis, 2, 0), &team(mixed, 0, 2)), GameType::Custom);
    assert_eq!(determine_game_type(&team(allies, 0, 0), &team(allies, 0, 0)), GameType::Custom);
}

#[test]
fn a_shared_team_makes_the_match_custom() {
    for other in [
        team(TeamSide::Axis, 0, 0),
        team(TeamSide::Axis, 2, 0),
        team(TeamSide::Axis, 0, 2),
        team(TeamSide::Mixed, 1, 1),
    ] {
        assert_eq!(determine_game_type(&team(TeamSide::Allies, 1, 1), &other), GameType::Custom);
        assert_eq!(determine_game_type(&other, &team(TeamSide::Allies, 1, 1)), GameType::Custom);
    }
}
