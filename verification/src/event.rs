//! The event that a log line stands for.

use crate::grammar::{
    game_language, game_over, game_player_name, game_player_steam_id, game_start_line,
    game_sub_param, get_game_language, get_game_over, get_game_player_name,
    get_game_player_steam_id, get_game_sub_param, get_map_name, get_param_line,
    get_timestamped_line, is_game_start_line, lemma_player_line, map_name, param_line,
    parse_player_line, player_line, timestamped_line, well_formed_player,
};
use crate::model::{PlayerData, PlayerView};
use crate::text::{numeral_u64, parse_u64, same_text, tag, trim, trimmed};
use vstd::prelude::*;

verus! {

/// What one line of the log tells.
#[derive(Debug, PartialEq, Eq)]
pub enum LineEvent<'a> {
    /// The game was closed in good order.
    Closed,
    /// A match began at the given time.
    GameStart(&'a str),
    /// The platform identifier of the player at this machine.
    SteamId(&'a str),
    /// The map of a match.
    Scenario(&'a str),
    /// The win condition of a match; with it the match begins to load.
    WinCondition(&'a str),
    /// The mission of a match starts.
    MissionStart,
    /// A player of a match, with the number of the player's side.
    Player(PlayerData, u8),
    /// The name of the player at this machine.
    PlayerName(&'a str),
    /// The language of the game.
    Language(&'a str),
    /// A match ended, at the given frame where the line holds a number.
    GameOver(Option<u64>),
    /// Nothing of interest.
    Other,
}

/// An event as plain values.
pub enum EventView {
    Closed,
    GameStart(Seq<char>),
    SteamId(Seq<char>),
    Scenario(Seq<char>),
    WinCondition(Seq<char>),
    MissionStart,
    Player(PlayerView, u8),
    PlayerName(Seq<char>),
    Language(Seq<char>),
    GameOver(Option<u64>),
    Other,
}

impl<'a> View for LineEvent<'a> {
    type V = EventView;

    open spec fn view(&self) -> EventView {
        match *self {
            LineEvent::Closed => EventView::Closed,
            LineEvent::GameStart(t) => EventView::GameStart(t@),
            LineEvent::SteamId(t) => EventView::SteamId(t@),
            LineEvent::Scenario(t) => EventView::Scenario(t@),
            LineEvent::WinCondition(t) => EventView::WinCondition(t@),
            LineEvent::MissionStart => EventView::MissionStart,
            LineEvent::Player(p, side) => EventView::Player(p@, side),
            LineEvent::PlayerName(t) => EventView::PlayerName(t@),
            LineEvent::Language(t) => EventView::Language(t@),
            LineEvent::GameOver(frames) => EventView::GameOver(frames),
            LineEvent::Other => EventView::Other,
        }
    }
}

/// The event of a line of the category `GAME`, from what follows the
/// category. A line with a field name is judged by that name alone; only a
/// line without one can give the player's name or the language.
pub open spec fn game_event(rest: Seq<char>) -> EventView {
    match game_sub_param(rest) {
        Some((value, sub_param)) => if sub_param == "Scenario"@ {
            match map_name(value) {
                Some((name, _)) => EventView::Scenario(name),
                None => EventView::Other,
            }
        } else if sub_param == "Win Condition Name"@ {
            EventView::WinCondition(trimmed(value))
        } else if sub_param == "Starting mission"@ {
            EventView::MissionStart
        } else if sub_param == "Human Player"@ {
            match player_line(value, false) {
                Some((player, side)) => EventView::Player(player, side),
                None => EventView::Other,
            }
        } else if sub_param == "AI Player"@ {
            match player_line(value, true) {
                Some((player, side)) => EventView::Player(player, side),
                None => EventView::Other,
            }
        } else {
            EventView::Other
        },
        None => match game_player_name(rest) {
            Some(name) => EventView::PlayerName(name),
            None => match game_language(rest) {
                Some(language) => EventView::Language(language),
                None => EventView::Other,
            },
        },
    }
}

/// The event of a line of the category `MOD`, from what follows the category.
pub open spec fn mod_event(rest: Seq<char>) -> EventView {
    match game_over(rest) {
        Some(frames) => EventView::GameOver(numeral_u64(frames)),
        None => EventView::Other,
    }
}

/// The event of a line. A line that begins with the mark of a closed game is
/// that event whatever follows; any other line must carry a time stamp to be
/// of interest.
pub open spec fn line_event(line: Seq<char>) -> EventView {
    if "Application closed"@.is_prefix_of(line) {
        EventView::Closed
    } else {
        match timestamped_line(line) {
            None => EventView::Other,
            Some((tail, time_code)) => if game_start_line(tail) {
                EventView::GameStart(time_code)
            } else {
                match game_player_steam_id(tail) {
                    Some(steam_id) => EventView::SteamId(steam_id),
                    None => match param_line(tail) {
                        None => EventView::Other,
                        Some((rest, param)) => if param == "GAME"@ {
                            game_event(rest)
                        } else if param == "MOD"@ {
                            mod_event(rest)
                        } else {
                            EventView::Other
                        },
                    },
                }
            },
        }
    }
}

/// The player of a player event is well formed.
pub proof fn lemma_player_event(line: Seq<char>)
    ensures
        line_event(line) matches EventView::Player(player, _) ==> well_formed_player(player),
{
    if line_event(line) is Player {
        let (tail, _) = timestamped_line(line).unwrap();
        let (rest, _) = param_line(tail).unwrap();
        let (value, _) = game_sub_param(rest).unwrap();
        lemma_player_line(value, false);
        lemma_player_line(value, true);
    }
}

/// Reads the event of a `GAME` line from what follows the category.
pub fn read_game_event<'a>(rest: &'a str) -> (event: LineEvent<'a>)
    ensures
        event@ == game_event(rest@),
{
    match get_game_sub_param(rest) {
        Some((value, sub_param)) => {
            if same_text(sub_param, "Scenario") {
                match get_map_name(value) {
                    Some((name, _)) => LineEvent::Scenario(name),
                    None => LineEvent::Other,
                }
            } else if same_text(sub_param, "Win Condition Name") {
                LineEvent::WinCondition(trim(value))
            } else if same_text(sub_param, "Starting mission") {
                LineEvent::MissionStart
            } else if same_text(sub_param, "Human Player") {
                match parse_player_line(value, false) {
                    Some((player, side)) => LineEvent::Player(player, side),
                    None => LineEvent::Other,
                }
            } else if same_text(sub_param, "AI Player") {
                match parse_player_line(value, true) {
                    Some((player, side)) => LineEvent::Player(player, side),
                    None => LineEvent::Other,
                }
            } else {
                LineEvent::Other
            }
        },
        None => match get_game_player_name(rest) {
            Some(name) => LineEvent::PlayerName(name),
            None => match get_game_language(rest) {
                Some(language) => LineEvent::Language(language),
                None => LineEvent::Other,
            },
        },
    }
}

/// Reads the event of a `MOD` line from what follows the category.
pub fn read_mod_event<'a>(rest: &'a str) -> (event: LineEvent<'a>)
    ensures
        event@ == mod_event(rest@),
{
    match get_game_over(rest) {
        Some(frames) => LineEvent::GameOver(parse_u64(frames)),
        None => LineEvent::Other,
    }
}

/// Reads the event of a line.
pub fn read_line_event<'a>(line: &'a str) -> (event: LineEvent<'a>)
    ensures
        event@ == line_event(line@),
{
    if tag(line, "Application closed").is_some() {
        return LineEvent::Closed;
    }
    match get_timestamped_line(line) {
        None => LineEvent::Other,
        Some((tail, time_code)) => {
            if is_game_start_line(tail) {
                return LineEvent::GameStart(time_code);
            }
            match get_game_player_steam_id(tail) {
                Some(steam_id) => LineEvent::SteamId(steam_id),
                None => match get_param_line(tail) {
                    None => LineEvent::Other,
                    Some((rest, param)) => {
                        if same_text(param, "GAME") {
                            read_game_event(rest)
                        } else if same_text(param, "MOD") {
                            read_mod_event(rest)
                        } else {
                            LineEvent::Other
                        }
                    },
                },
            }
        },
    }
}

} // verus!
