//! The record of a match and its parts, with their mathematical views.

use vstd::prelude::*;

verus! {

/// Whether the game runs, and which phase its latest match is in.
#[derive(Clone, Copy, Debug, PartialEq, Eq, Structural)]
pub enum GameState {
    Closed,
    Menu,
    Loading,
    InGame,
}

/// The kind of a match, by who plays on its two sides.
#[derive(Clone, Copy, Debug, PartialEq, Eq, Structural)]
pub enum GameType {
    Classic,
    AI,
    Custom,
}

/// The alliance of a team, derived from the factions of its players.
#[derive(Clone, Copy, Debug, PartialEq, Eq, Structural)]
pub enum TeamSide {
    Axis,
    Allies,
    Mixed,
}

/// One player of a match.
#[derive(Clone, Debug, PartialEq, Eq)]
pub struct PlayerData {
    pub ai: bool,
    pub faction: String,
    pub relic_id: String,
    pub name: String,
    pub position: u8,
    pub steam_id: String,
    pub rank: i64,
}

/// A player as plain values.
pub struct PlayerView {
    pub ai: bool,
    pub faction: Seq<char>,
    pub relic_id: Seq<char>,
    pub name: Seq<char>,
    pub position: u8,
    pub steam_id: Seq<char>,
    pub rank: i64,
}

impl View for PlayerData {
    type V = PlayerView;

    open spec fn view(&self) -> PlayerView {
        PlayerView {
            ai: self.ai,
            faction: self.faction@,
            relic_id: self.relic_id@,
            name: self.name@,
            position: self.position,
            steam_id: self.steam_id@,
            rank: self.rank,
        }
    }
}

/// The views of a roster's players, in the roster's order.
pub open spec fn roster_view(players: Seq<PlayerData>) -> Seq<PlayerView> {
    Seq::new(players.len(), |i: int| players[i]@)
}

/// The players of one side, in the order in which they were found, and the
/// side's alliance.
#[derive(Clone, Debug, PartialEq, Eq)]
pub struct TeamData {
    pub players: Vec<PlayerData>,
    pub side: TeamSide,
}

/// A team as plain values.
pub struct TeamView {
    pub players: Seq<PlayerView>,
    pub side: TeamSide,
}

impl View for TeamData {
    type V = TeamView;

    open spec fn view(&self) -> TeamView {
        TeamView { players: roster_view(self.players@), side: self.side }
    }
}

/// What a log tells of its latest match.
#[derive(Clone, Debug, PartialEq, Eq)]
pub struct LogFileData {
    pub game_state: GameState,
    pub game_type: GameType,
    pub timestamp: String,
    /// The length of the match in seconds.
    pub duration: u64,
    pub map: String,
    pub win_condition: String,
    pub left: TeamData,
    pub right: TeamData,
    pub player_name: String,
    pub player_steam_id: String,
    pub player_profile_id: String,
    pub language_code: String,
}

/// A match record as plain values.
pub struct LogFileView {
    pub game_state: GameState,
    pub game_type: GameType,
    pub timestamp: Seq<char>,
    pub duration: u64,
    pub map: Seq<char>,
    pub win_condition: Seq<char>,
    pub left: TeamView,
    pub right: TeamView,
    pub player_name: Seq<char>,
    pub player_steam_id: Seq<char>,
    pub player_profile_id: Seq<char>,
    pub language_code: Seq<char>,
}

impl View for LogFileData {
    type V = LogFileView;

    open spec fn view(&self) -> LogFileView {
        LogFileView {
            game_state: self.game_state,
            game_type: self.game_type,
            timestamp: self.timestamp@,
            duration: self.duration,
            map: self.map@,
            win_condition: self.win_condition@,
            left: self.left@,
            right: self.right@,
            player_name: self.player_name@,
            player_steam_id: self.player_steam_id@,
            player_profile_id: self.player_profile_id@,
            language_code: self.language_code@,
        }
    }
}

} // verus!
