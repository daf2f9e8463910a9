use coh3_log::scan::{parse_lines_reverse, Accumulator};
use coh3_log::{parse_log_file_reverse, GameState, GameType, PlayerData, TeamSide};
use coh3_log::event::{read_line_event, LineEvent};

fn lines(text: &[&str]) -> Vec<String> {
    text.iter().map(|l| l.to_string()).collect()
}

fn file_of(lines: &[String]) -> Vec<u8> {
    let mut bytes = Vec::new();
    for (i, line) in lines.iter().enumerate() {
        bytes.extend_from_slice(line.as_bytes());
        if i % 2 == 0 {
            bytes.push(b'\r');
        }
        bytes.push(b'\n');
        if i % 3 == 0 {
            bytes.extend_from_slice(&[b'(', 0xff, 0xfe, b')', b'\n']);
        }
    }
    bytes
}

fn session_head(name: &str, language: &str) -> Vec<String> {
    vec![
        "(I) [11:40:00.000] [000007332]: GAME -- Some older line".to_string(),
        format!("(I) [11:40:01.000] [000007332]: GAME -- Current Steam name is [{}]", name),
        format!(
            "(I) [11:40:01.100] [000007332]: GAME -- [Company of Heroes 3] set to language [{}]",
            language
        ),
        "(I) [11:40:02.000] [000007332]: Found profile: /steam/76561198000000001".to_string(),
    ]
}

fn four_versus_four(axis_side: u8) -> Vec<String> {
    let allied_side = 1 - axis_side;
    let mut log = session_head("Wolfsindis", "en");
    log.extend(lines(&[
        "(I) [11:43:31.404] [000007332]: GAME -- Scenario: data:scenarios\\multiplayer\\winter_line_8p_mkii\\winter_line_8p_mkii",
        "(I) [11:43:31.405] [000007332]: GAME -- Win Condition Name: VictoryPoint",
    ]));
    for i in 0..4u8 {
        let faction = if i % 2 == 0 { "germans" } else { "west_german" };
        log.push(format!(
            "(I) [11:43:31.5{}] [000007332]: GAME -- Human Player: {} Axis Player {} {} {} {}",
            i, i, i, 1000 + i as u32, axis_side, faction
        ));
    }
    for i in 4..8u8 {
        let faction = if i % 2 == 0 { "americans" } else { "british_africa" };
        log.push(format!(
            "(I) [11:43:31.5{}] [000007332]: GAME -- Human Player: {} Ally{} {} {} {}",
            i, i, i, 1000 + i as u32, allied_side, faction
        ));
    }
    log.extend(lines(&[
        "(I) [11:44:00.000] [000007332]: GAME -- Starting mission: winter_line_8p_mkii",
        "(I) [11:44:07.831] [000007332]: GameApp::SetState : new (Game)",
        "(I) [12:21:00.000] [000007332]: MOD -- Game Over at frame 17736",
        "Application closed without errors",
    ]));
    log
}

fn two_player_log(name: &str, language: &str, map: &str, left_faction: &str, right_faction: &str) -> Vec<String> {
    let mut log = session_head(name, language);
    log.push(format!(
        "(I) [10:00:00.000] [000001234]: GAME -- Scenario: data:scenarios\\multiplayer\\{}\\{}",
        map, map
    ));
    log.extend(lines(&["(I) [10:00:00.001] [000001234]: GAME -- Win Condition Name: VictoryPoint"]));
    log.push(format!(
        "(I) [10:00:00.002] [000001234]: GAME -- Human Player: 0 {} 5001 0 {}",
        name, left_faction
    ));
    log.push(format!(
        "(I) [10:00:00.003] [000001234]: GAME -- Human Player: 1 Opponent 5002 1 {}",
        right_faction
    ));
    log.extend(lines(&[
        "(I) [10:00:05.000] [000001234]: GAME -- Starting mission: x",
        "(I) [10:20:00.000] [000001234]: MOD -- Game Over at frame 9600",
        "Application closed without errors",
    ]));
    log
}

#[test]
fn test_parse_log_file_reverse_file_1() {
    let result = parse_log_file_reverse(&file_of(&four_versus_four(0)));
    assert_eq!(result.game_state, GameState::Closed);

    assert_eq!(result.duration, 2217);
    assert_eq!(result.map, "winter_line_8p_mkii");
    assert_eq!(result.win_condition, "VictoryPoint");

    assert_eq!(result.left.side, TeamSide::Axis);
    assert_eq!(result.right.side, TeamSide::Allies);

    assert_eq!(result.player_name, "Wolfsindis");
    assert_eq!(result.language_code, "en");
}

#[test]
fn test_parse_log_file_reverse_file_2() {
    let result = parse_log_file_reverse(&file_of(&two_player_log(
        "UMirinBrah?",
        "fr",
        "rural_town_2p_mkii",
        "germans",
        "americans",
    )));
    assert_eq!(result.game_state, GameState::Closed);

    assert_eq!(result.map, "rural_town_2p_mkii");

    assert_eq!(result.left.side, TeamSide::Axis);
    assert_eq!(result.right.side, TeamSide::Allies);

    assert_eq!(result.player_name, "UMirinBrah?");
    assert_eq!(result.language_code, "fr");
}

#[test]
fn test_parse_log_file_reverse_file_3() {
    let result = parse_log_file_reverse(&file_of(&two_player_log(
        "UMirinBrah?",
        "fr",
        "desert_village_2p_mkiii",
        "british_africa",
        "west_german",
    )));
    assert_eq!(result.game_state, GameState::Closed);

    assert_eq!(result.map, "desert_village_2p_mkiii");

    assert_eq!(result.left.side, TeamSide::Allies);
    assert_eq!(result.right.side, TeamSide::Axis);

    assert_eq!(result.player_name, "UMirinBrah?");
    assert_eq!(result.language_code, "fr");
}

#[test]
fn test_team_composition() {
    let mut log = four_versus_four(1);
    log[1] = "(I) [11:40:01.000] [000007332]: GAME -- Current Steam name is [pagep]".to_string();
    let result = parse_log_file_reverse(&file_of(&log));
    assert_eq!(result.game_state, GameState::Closed);

    assert_eq!(result.map, "winter_line_8p_mkii");

    assert_eq!(result.left.side, TeamSide::Allies);
    assert_eq!(result.right.side, TeamSide::Axis);

    assert_eq!(result.player_name, "pagep");
    assert_eq!(result.language_code, "en");
}

#[test]
fn test_team_composition_mixed_team() {
    let mut log = session_head("Baskervilles Blackdog", "ko");
    log.extend(lines(&[
        "(I) [20:00:00.000] [000004321]: GAME -- Scenario: data:scenarios\\campaign\\italy_base",
        "(I) [20:00:00.001] [000004321]: GAME -- Win Condition Name: Campaign",
        "(I) [20:00:00.002] [000004321]: GAME -- Human Player: 3 Guest 77 0 germans",
        "(I) [20:00:00.003] [000004321]: GAME -- AI Player: 4 CPU - 보통 -1 1 germans",
        "(I) [20:00:00.004] [000004321]: GAME -- Human Player: 0 Baskervilles Blackdog 399635 0 americans_campaign",
        "(I) [20:00:00.005] [000004321]: GAME -- AI Player: 1 CPU - 보통 -1 1 germans_campaign",
        "(I) [20:00:00.006] [000004321]: GAME -- AI Player: 2 CPU - 보통 -1 0 americans_campaign",
        "(I) [20:00:01.000] [000004321]: GAME -- Starting mission: italy_base",
        "Application closed without errors",
    ]));
    let result = parse_log_file_reverse(&file_of(&log));
    assert_eq!(result.game_state, GameState::Closed);

    assert_eq!(result.map, "italy_base");

    assert_eq!(result.left.side, TeamSide::Mixed);
    assert_eq!(result.right.side, TeamSide::Mixed);

    assert_eq!(
        result.right.players[0],
        PlayerData {
            ai: true,
            faction: "germans_campaign".to_string(),
            relic_id: "-1".to_string(),
            name: "CPU - 보통".to_string(),
            position: 1,
            steam_id: "".to_string(),
            rank: -1,
        }
    );

    assert_eq!(
        result.left.players[0],
        PlayerData {
            ai: true,
            faction: "americans_campaign".to_string(),
            relic_id: "-1".to_string(),
            name: "CPU - 보통".to_string(),
            position: 2,
            steam_id: "".to_string(),
            rank: -1,
        }
    );
    assert_eq!(
        result.left.players[1],
        PlayerData {
            ai: false,
            faction: "americans_campaign".to_string(),
            relic_id: "399635".to_string(),
            name: "Baskervilles Blackdog".to_string(),
            position: 0,
            steam_id: "".to_string(),
            rank: -1,
        }
    );

    assert_eq!(result.player_name, "Baskervilles Blackdog");
    assert_eq!(result.language_code, "ko");
}

#[test]
fn round_trip_of_a_full_match() {
    let result = parse_lines_reverse(&lines(&[
        "(I) [11:43:31.404] [000007332]: GAME -- Scenario: maps\\winter_line_8p_mkii",
        "(I) [11:43:31.405] [000007332]: GAME -- Win Condition Name: VictoryPoint",
        "(I) [11:43:31.500] [000007332]: GAME -- Human Player: 0 A 1 0 germans",
        "(I) [11:43:31.501] [000007332]: GAME -- Human Player: 1 B 2 0 germans",
        "(I) [11:43:31.502] [000007332]: GAME -- Human Player: 2 C 3 0 west_german",
        "(I) [11:43:31.503] [000007332]: GAME -- Human Player: 3 D 4 0 west_german",
        "(I) [11:43:31.504] [000007332]: GAME -- Human Player: 4 E 5 1 americans",
        "(I) [11:43:31.505] [000007332]: GAME -- Human Player: 5 F 6 1 americans",
        "(I) [11:43:31.506] [000007332]: GAME -- Human Player: 6 G 7 1 british",
        "(I) [11:43:31.507] [000007332]: GAME -- Human Player: 7 H 8 1 british",
        "(I) [12:21:00.000] [000007332]: MOD -- Game Over at frame 17736",
        "Application closed",
    ]));
    assert_eq!(result.map, "winter_line_8p_mkii");
    assert_eq!(result.win_condition, "VictoryPoint");
    assert_eq!(result.duration, 2217);
    assert_eq!(result.left.side, TeamSide::Axis);
    assert_eq!(result.right.side, TeamSide::Allies);
    assert_eq!(result.game_type, GameType::Classic);
    assert_eq!(result.game_state, GameState::Closed);
    assert_eq!(result.left.players.len(), 4);
    assert_eq!(result.right.players.len(), 4);
    assert_eq!(result.left.players[0].position, 3);
    assert_eq!(result.left.players[3].position, 0);
    assert_eq!(result.right.players[0].name, "H");
    assert_eq!(result.right.players[0].relic_id, "8");
}

#[test]
fn empty_log_gives_the_defaults() {
    let result = parse_lines_reverse(&Vec::new());
    assert_eq!(result.game_state, GameState::Menu);
    assert_eq!(result.game_type, GameType::Custom);
    assert_eq!(result.timestamp, "");
    assert_eq!(result.duration, 0);
    assert_eq!(result.map, "");
    assert_eq!(result.win_condition, "");
    assert!(result.left.players.is_empty());
    assert!(result.right.players.is_empty());
    assert_eq!(result.left.side, TeamSide::Allies);
    assert_eq!(result.right.side, TeamSide::Allies);
    assert_eq!(result.player_name, "");
    assert_eq!(result.player_steam_id, "");
    assert_eq!(result.player_profile_id, "");
    assert_eq!(result.language_code, "");
}

#[test]
fn closed_marker_on_the_last_line_closes() {
    let result = parse_lines_reverse(&lines(&[
        "(I) [11:43:31.405] [000007332]: GAME -- Win Condition Name: VictoryPoint",
        "(I) [11:44:00.000] [000007332]: GAME -- Starting mission: x",
        "Application closed",
    ]));
    assert_eq!(result.game_state, GameState::Closed);
}

#[test]
fn human_against_computer_without_win_condition_is_in_the_menu() {
    let result = parse_lines_reverse(&lines(&[
        "(I) [11:43:31.500] [000007332]: GAME -- Human Player: 0 Me 17 0 germans",
        "(I) [11:43:31.501] [000007332]: GAME -- AI Player: 1 CPU - Easy -1 1 americans",
    ]));
    assert_eq!(result.game_state, GameState::Menu);
    assert_eq!(result.game_type, GameType::AI);
    assert_eq!(result.left.side, TeamSide::Axis);
    assert_eq!(result.right.side, TeamSide::Allies);
    assert_eq!(result.duration, 0);
}

#[test]
fn loading_then_started_then_ended() {
    let win = "(I) [11:43:31.405] [000007332]: GAME -- Win Condition Name:   Annihilation \t";
    let start = "(I) [11:44:00.000] [000007332]: GAME -- Starting mission: x";
    let over = "(I) [12:21:00.000] [000007332]: MOD -- Game Over at frame 81";
    let loading = parse_lines_reverse(&lines(&[win]));
    assert_eq!(loading.game_state, GameState::Loading);
    assert_eq!(loading.win_condition, "Annihilation");
    let running = parse_lines_reverse(&lines(&[win, start]));
    assert_eq!(running.game_state, GameState::InGame);
    let ended = parse_lines_reverse(&lines(&[win, start, over]));
    assert_eq!(ended.game_state, GameState::Menu);
    assert_eq!(ended.duration, 10);
}

#[test]
fn shared_team_of_campaign_factions_is_custom() {
    let result = parse_lines_reverse(&lines(&[
        "(I) [20:00:00.004] [000004321]: GAME -- Human Player: 0 Baskervilles Blackdog 399635 0 americans_campaign",
        "(I) [20:00:00.005] [000004321]: GAME -- AI Player: 1 CPU 1 -1 1 germans_campaign",
        "(I) [20:00:00.006] [000004321]: GAME -- AI Player: 2 CPU 2 -1 0 americans_campaign",
    ]));
    assert_eq!(result.game_type, GameType::Custom);
    assert_eq!(result.left.players.len(), 2);
    assert_eq!(result.left.side, TeamSide::Allies);
    assert_eq!(result.right.side, TeamSide::Allies);
}

#[test]
fn only_the_latest_match_counts() {
    let result = parse_lines_reverse(&lines(&[
        "(I) [09:00:00.000] [000007332]: GAME -- Scenario: data:scenarios\\multiplayer\\old_map",
        "(I) [09:00:00.001] [000007332]: GAME -- Win Condition Name: Old",
        "(I) [09:00:00.002] [000007332]: GAME -- Human Player: 0 Old 1 0 germans",
        "(I) [09:00:00.003] [000007332]: GAME -- Starting mission: old",
        "(I) [09:30:00.000] [000007332]: MOD -- Game Over at frame 800",
        "(I) [10:00:00.000] [000007332]: GAME -- Scenario: data:scenarios\\multiplayer\\new_map",
        "(I) [10:00:00.001] [000007332]: GAME -- Win Condition Name: New",
        "(I) [10:00:00.002] [000007332]: GAME -- Human Player: 1 New 2 1 americans",
    ]));
    assert_eq!(result.map, "new_map");
    assert_eq!(result.win_condition, "New");
    assert_eq!(result.duration, 0);
    assert_eq!(result.game_state, GameState::Loading);
    assert!(result.left.players.is_empty());
    assert_eq!(result.right.players.len(), 1);
    assert_eq!(result.right.players[0].name, "New");
}

#[test]
fn reading_stops_at_the_player_name() {
    let result = parse_lines_reverse(&lines(&[
        "Application closed",
        "(I) [08:00:00.000] [000007332]: Found profile: /steam/111",
        "(I) [08:00:00.001] [000007332]: GAME -- [Company of Heroes 3] set to language [de]",
        "(I) [09:00:00.000] [000007332]: GAME -- Current Steam name is [[TAG] Someone]",
        "(I) [09:00:00.001] [000007332]: Found profile: /steam/222",
    ]));
    assert_eq!(result.player_name, " Someone");
    assert_eq!(result.player_steam_id, "222");
    assert_eq!(result.language_code, "");
    assert_eq!(result.game_state, GameState::Menu);
}

#[test]
fn the_earliest_match_start_that_is_read_gives_the_time() {
    let result = parse_lines_reverse(&lines(&[
        "(I) [10:00:00.000] [000007332]: GameApp::SetState : new (Game)",
        "(I) [11:00:00.000] [000007332]: GameApp::SetState : new (Game)",
        "(I) [12:00:00.000] [000007332]: GameApp::SetState : new (Game) and more",
    ]));
    assert_eq!(result.timestamp, "10:00:00.000");
}

#[test]
fn malformed_numbers_leave_the_defaults() {
    let result = parse_lines_reverse(&lines(&[
        "(I) [11:43:31.500] [000007332]: GAME -- Human Player: 256 A 1 0 germans",
        "(I) [11:43:31.501] [000007332]: GAME -- Human Player: 0 B 2 x germans",
        "(I) [11:43:31.502] [000007332]: GAME -- Human Player: -1 C 3 0 germans",
        "(I) [11:43:31.503] [000007332]: GAME -- Human Player: 1 D 0 germans",
        "(I) [11:43:31.504] [000007332]: GAME -- Win Condition Name: W",
        "(I) [12:21:00.000] [000007332]: MOD -- Game Over at frame 12 ",
    ]));
    assert!(result.left.players.is_empty());
    assert!(result.right.players.is_empty());
    assert_eq!(result.duration, 0);
    assert_eq!(result.game_state, GameState::Menu);
}

#[test]
fn numbers_may_carry_a_plus_sign_and_leading_zeros() {
    let result = parse_lines_reverse(&lines(&[
        "(I) [11:43:31.500] [000007332]: GAME -- Human Player: +7 A B 1 007 germans",
        "(I) [12:21:00.000] [000007332]: MOD -- Game Over at frame +0016",
    ]));
    assert!(result.left.players.is_empty());
    assert_eq!(result.right.players.len(), 1);
    assert_eq!(result.right.players[0].position, 7);
    assert_eq!(result.right.players[0].name, "A B");
    assert_eq!(result.duration, 2);
}

#[test]
fn largest_frame_count() {
    let result = parse_lines_reverse(&lines(&[
        "(I) [12:21:00.000] [000007332]: MOD -- Game Over at frame 18446744073709551615",
    ]));
    assert_eq!(result.duration, 2305843009213693951);
    let over = parse_lines_reverse(&lines(&[
        "(I) [12:21:00.000] [000007332]: MOD -- Game Over at frame 18446744073709551616",
    ]));
    assert_eq!(over.duration, 0);
    assert_eq!(over.game_state, GameState::Menu);
}

#[test]
fn events_of_single_lines() {
    assert_eq!(read_line_event("Application closed without errors"), LineEvent::Closed);
    assert_eq!(read_line_event("  Application closed"), LineEvent::Other);
    assert_eq!(
        read_line_event("(I) [11:44:07.831] [000007332]: GameApp::SetState : new (Game)"),
        LineEvent::GameStart("11:44:07.831")
    );
    assert_eq!(
        read_line_event("(I) [11:44:07.831] [000007332]: Found profile: /steam/7656"),
        LineEvent::SteamId("7656")
    );
    assert_eq!(
        read_line_event("(I) [11:44:07.831] [000007332]: GAME -- Scenario: a\\b\\c"),
        LineEvent::Scenario("c")
    );
    assert_eq!(
        read_line_event("(I) [11:44:07.831] [000007332]: GAME -- Scenario: no_separator"),
        LineEvent::Other
    );
    assert_eq!(
        read_line_event("(I) [11:44:07.831] [000007332]: GAME -- Starting mission: x"),
        LineEvent::MissionStart
    );
    assert_eq!(
        read_line_event("(I) [11:44:07.831] [000007332]: GAME -- Current Steam name is [a:b]"),
        LineEvent::Other
    );
    assert_eq!(
        read_line_event("(I) [11:44:07.831] [000007332]: MOD -- Game Over at frame 8"),
        LineEvent::GameOver(Some(8))
    );
    assert_eq!(
        read_line_event("(I) [11:44:07.831] [000007332]: MOD -- Game Over at frame eight"),
        LineEvent::GameOver(None)
    );
    assert_eq!(
        read_line_event("(I) [11:44:07.831] [000007332]: GAME -- Game Over at frame 8"),
        LineEvent::Other
    );
    assert_eq!(read_line_event("GAME -- Scenario: a\\b"), LineEvent::Other);
    assert_eq!(read_line_event(""), LineEvent::Other);
}

#[test]
fn accumulator_ignores_match_facts_once_the_map_is_known() {
    let mut acc = Accumulator::new();
    assert!(acc.game_running);
    acc.apply(LineEvent::Scenario("m"));
    assert!(acc.full_game);
    acc.apply(LineEvent::WinCondition("w"));
    acc.apply(LineEvent::MissionStart);
    acc.apply(LineEvent::GameOver(Some(80)));
    acc.apply(LineEvent::Scenario("older"));
    acc.apply(LineEvent::Language("en"));
    acc.apply(LineEvent::Closed);
    assert!(!acc.stopped);
    acc.apply(LineEvent::PlayerName("me"));
    assert!(acc.stopped);
    let record = acc.finish();
    assert_eq!(record.map, "m");
    assert_eq!(record.win_condition, "");
    assert_eq!(record.duration, 0);
    assert_eq!(record.language_code, "en");
    assert_eq!(record.player_name, "me");
    assert_eq!(record.game_state, GameState::Closed);
}

#[test]
fn file_and_lines_agree() {
    let log = four_versus_four(0);
    assert_eq!(parse_log_file_reverse(&file_of(&log)), parse_lines_reverse(&log));
    let plain = log.join("\n");
    assert_eq!(parse_log_file_reverse(plain.as_bytes()), parse_lines_reverse(&log));
}

#[test]
fn empty_file_gives_the_defaults() {
    let result = parse_log_file_reverse(&[]);
    assert_eq!(result.game_state, GameState::Menu);
    assert_eq!(result.game_type, GameType::Custom);
    assert_eq!(result.timestamp, "");
    assert_eq!(result.duration, 0);
    assert_eq!(result.map, "");
    assert_eq!(result.win_condition, "");
    assert!(result.left.players.is_empty());
    assert!(result.right.players.is_empty());
    assert_eq!(result.player_name, "");
    assert_eq!(result.player_steam_id, "");
    assert_eq!(result.language_code, "");
}

#[test]
fn a_line_that_is_no_text_is_passed_over() {
    let mut bytes = Vec::new();
    bytes.extend_from_slice(b"(I) [1] [2]: GAME -- Win Condition Name: \xffbroken\n");
    bytes.extend_from_slice(b"(I) [1] [2]: GAME -- Starting mission: x\n");
    bytes.extend_from_slice(b"Application closed\xc3\n");
    let result = parse_log_file_reverse(&bytes);
    assert_eq!(result.win_condition, "");
    assert_eq!(result.game_state, GameState::Menu);
}
