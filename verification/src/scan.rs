//! The reading of a log from its last line towards its first: the facts
//! gathered on the way, how each event changes them, and the record made
//! of them at the end.

use crate::classify::{
    determine_game_state, determine_game_type, game_state, get_team_data, match_type, roster_side,
};
use crate::event::{line_event, read_line_event, EventView, LineEvent};
use crate::model::{roster_view, LogFileData, LogFileView, PlayerData, PlayerView, TeamView};
use crate::source::{lines_text, read_lines, text_lines};
use vstd::prelude::*;

verus! {

/// The facts gathered while a log is read.
pub struct Accumulator {
    /// The map of the latest match was found: what lies before it in the
    /// log belongs to earlier matches and no longer counts.
    pub full_game: bool,
    pub game_running: bool,
    pub game_loading: bool,
    pub game_started: bool,
    pub game_ended: bool,
    pub map: String,
    pub win_condition: String,
    pub timestamp: String,
    /// The length of the match in frames, of which a second has eight.
    pub duration_frames: u64,
    pub left: Vec<PlayerData>,
    pub right: Vec<PlayerData>,
    pub player_name: String,
    pub player_steam_id: String,
    pub player_profile_id: String,
    pub language_code: String,
    /// The line that names the player was met: the reading is over.
    pub stopped: bool,
}

/// The gathered facts as plain values.
pub struct AccumulatorView {
    pub full_game: bool,
    pub game_running: bool,
    pub game_loading: bool,
    pub game_started: bool,
    pub game_ended: bool,
    pub map: Seq<char>,
    pub win_condition: Seq<char>,
    pub timestamp: Seq<char>,
    pub duration_frames: u64,
    pub left: Seq<PlayerView>,
    pub right: Seq<PlayerView>,
    pub player_name: Seq<char>,
    pub player_steam_id: Seq<char>,
    pub player_profile_id: Seq<char>,
    pub language_code: Seq<char>,
    pub stopped: bool,
}

impl View for Accumulator {
    type V = AccumulatorView;

    open spec fn view(&self) -> AccumulatorView {
        AccumulatorView {
            full_game: self.full_game,
            game_running: self.game_running,
            game_loading: self.game_loading,
            game_started: self.game_started,
            game_ended: self.game_ended,
            map: self.map@,
            win_condition: self.win_condition@,
            timestamp: self.timestamp@,
            duration_frames: self.duration_frames,
            left: roster_view(self.left@),
            right: roster_view(self.right@),
            player_name: self.player_name@,
            player_steam_id: self.player_steam_id@,
            player_profile_id: self.player_profile_id@,
            language_code: self.language_code@,
            stopped: self.stopped,
        }
    }
}

/// The facts before any line is read: the game is taken to run, and nothing
/// else is known.
pub open spec fn initial() -> AccumulatorView {
    AccumulatorView {
        full_game: false,
        game_running: true,
        game_loading: false,
        game_started: false,
        game_ended: false,
        map: Seq::empty(),
        win_condition: Seq::empty(),
        timestamp: Seq::empty(),
        duration_frames: 0,
        left: Seq::empty(),
        right: Seq::empty(),
        player_name: Seq::empty(),
        player_steam_id: Seq::empty(),
        player_profile_id: Seq::empty(),
        language_code: Seq::empty(),
        stopped: false,
    }
}

/// The facts after an event. Once the map of the latest match is known, what
/// older lines say of a match (its map, win condition, start, players and
/// end) is passed over. The name of the player ends the reading.
pub open spec fn apply_event(acc: AccumulatorView, event: EventView) -> AccumulatorView {
    match event {
        EventView::Closed => AccumulatorView { game_running: false, ..acc },
        EventView::GameStart(time_code) => AccumulatorView { timestamp: time_code, ..acc },
        EventView::SteamId(steam_id) => AccumulatorView { player_steam_id: steam_id, ..acc },
        EventView::PlayerName(name) => AccumulatorView { player_name: name, stopped: true, ..acc },
        EventView::Language(language) => AccumulatorView { language_code: language, ..acc },
        EventView::Other => acc,
        _ => if acc.full_game {
            acc
        } else {
            match event {
                EventView::Scenario(name) => AccumulatorView { map: name, full_game: true, ..acc },
                EventView::WinCondition(name) => AccumulatorView {
                    win_condition: name,
                    game_loading: true,
                    ..acc
                },
                EventView::MissionStart => AccumulatorView { game_started: true, ..acc },
                EventView::Player(player, side) => if side == 0 {
                    AccumulatorView { left: acc.left.push(player), ..acc }
                } else {
                    AccumulatorView { right: acc.right.push(player), ..acc }
                },
                EventView::GameOver(frames) => AccumulatorView {
                    duration_frames: match frames {
                        Some(count) => count,
                        None => acc.duration_frames,
                    },
                    game_ended: true,
                    ..acc
                },
                _ => acc,
            }
        },
    }
}

/// The facts once the lines from position `from` to the end have been read,
/// the last line first. A reading that was stopped takes in no further line.
pub open spec fn scan(lines: Seq<Seq<char>>, from: int) -> AccumulatorView
    decreases lines.len() - from,
{
    if from >= lines.len() {
        initial()
    } else {
        let later = scan(lines, from + 1);
        if later.stopped {
            later
        } else {
            apply_event(later, line_event(lines[from]))
        }
    }
}

/// The record made of the gathered facts.
pub open spec fn record_of(acc: AccumulatorView) -> LogFileView {
    let left = TeamView { players: acc.left, side: roster_side(acc.left) };
    let right = TeamView { players: acc.right, side: roster_side(acc.right) };
    LogFileView {
        game_state: game_state(
            acc.game_running,
            acc.game_ended,
            acc.game_loading,
            acc.game_started,
        ),
        game_type: match_type(left, right),
        timestamp: acc.timestamp,
        duration: acc.duration_frames / 8,
        map: acc.map,
        win_condition: acc.win_condition,
        left,
        right,
        player_name: acc.player_name,
        player_steam_id: acc.player_steam_id,
        player_profile_id: acc.player_profile_id,
        language_code: acc.language_code,
    }
}

/// What a log tells of its latest match.
pub open spec fn log_record(lines: Seq<Seq<char>>) -> LogFileView {
    record_of(scan(lines, 0))
}

impl Accumulator {
    /// The facts before any line is read.
    pub fn new() -> (acc: Accumulator)
        ensures
            acc@ == initial(),
    {
        let acc = Accumulator {
            full_game: false,
            game_running: true,
            game_loading: false,
            game_started: false,
            game_ended: false,
            map: String::new(),
            win_condition: String::new(),
            timestamp: String::new(),
            duration_frames: 0,
            left: Vec::new(),
            right: Vec::new(),
            player_name: String::new(),
            player_steam_id: String::new(),
            player_profile_id: String::new(),
            language_code: String::new(),
            stopped: false,
        };
        proof {
            assert(roster_view(acc.left@) =~= Seq::empty());
            assert(roster_view(acc.right@) =~= Seq::empty());
        }
        acc
    }

    /// Takes in an event.
    pub fn apply(&mut self, event: LineEvent<'_>)
        ensures
            final(self)@ == apply_event(old(self)@, event@),
    {
        match event {
            LineEvent::Closed => {
                self.game_running = false;
            },
            LineEvent::GameStart(time_code) => {
                self.timestamp = time_code.to_owned();
            },
            LineEvent::SteamId(steam_id) => {
                self.player_steam_id = steam_id.to_owned();
            },
            LineEvent::PlayerName(name) => {
                self.player_name = name.to_owned();
                self.stopped = true;
            },
            LineEvent::Language(language) => {
                self.language_code = language.to_owned();
            },
            LineEvent::Other => {},
            LineEvent::Scenario(name) => {
                if !self.full_game {
                    self.map = name.to_owned();
                    self.full_game = true;
                }
            },
            LineEvent::WinCondition(name) => {
                if !self.full_game {
                    self.win_condition = name.to_owned();
                    self.game_loading = true;
                }
            },
            LineEvent::MissionStart => {
                if !self.full_game {
                    self.game_started = true;
                }
            },
            LineEvent::Player(player, side) => {
                if !self.full_game {
                    if side == 0 {
                        proof {
                            assert(roster_view(self.left@.push(player)) =~= roster_view(
                                self.left@,
                            ).push(player@));
                        }
                        self.left.push(player);
                    } else {
                        proof {
                            assert(roster_view(self.right@.push(player)) =~= roster_view(
                                self.right@,
                            ).push(player@));
                        }
                        self.right.push(player);
                    }
                }
            },
            LineEvent::GameOver(frames) => {
                if !self.full_game {
                    match frames {
                        Some(count) => {
                            self.duration_frames = count;
                        },
                        None => {},
                    }
                    self.game_ended = true;
                }
            },
        }
    }

    /// Makes the record of the gathered facts.
    pub fn finish(self) -> (record: LogFileData)
        ensures
            record@ == record_of(self@),
    {
        let game_state = determine_game_state(
            self.game_running,
            self.game_ended,
            self.game_loading,
            self.game_started,
        );
        let left_team = get_team_data(self.left);
        let right_team = get_team_data(self.right);
        let game_type = determine_game_type(&left_team, &right_team);
        LogFileData {
            game_state,
            game_type,
            timestamp: self.timestamp,
            duration: self.duration_frames / 8,
            map: self.map,
            win_condition: self.win_condition,
            left: left_team,
            right: right_team,
            player_name: self.player_name,
            player_steam_id: self.player_steam_id,
            player_profile_id: self.player_profile_id,
            language_code: self.language_code,
        }
    }
}

/// A reading that was stopped at some line is the reading of the whole log.
pub proof fn lemma_stopped_scan(lines: Seq<Seq<char>>, at: int, from: int)
    requires
        0 <= from <= at <= lines.len(),
        scan(lines, at).stopped,
    ensures
        scan(lines, from) == scan(lines, at),
    decreases at - from,
{
    if from < at {
        lemma_stopped_scan(lines, at, from + 1);
    }
}

/// Reads a log, given as its lines in the order of the file, from its last
/// line towards its first, and tells what it holds of the latest match.
pub fn parse_lines_reverse(lines: &Vec<String>) -> (record: LogFileData)
    ensures
        record@ == log_record(lines_text(lines@)),
{
    let ghost text = lines_text(lines@);
    let mut acc = Accumulator::new();
    let mut i: usize = lines.len();
    while i > 0 && !acc.stopped
        invariant
            i <= lines.len(),
            text == lines_text(lines@),
            acc@ == scan(text, i as int),
        decreases i,
    {
        i -= 1;
        let event = read_line_event(lines[i].as_str());
        acc.apply(event);
    }
    proof {
        if i > 0 {
            lemma_stopped_scan(text, i as int, 0);
        }
    }
    acc.finish()
}

/// Reads a log, given as the bytes of its file, from its last line towards
/// its first, and tells what it holds of the latest match. Lines that are no
/// text are passed over.
pub fn parse_log_file_reverse(content: &[u8]) -> (record: LogFileData)
    ensures
        record@ == log_record(text_lines(content@)),
{
    let lines = read_lines(content);
    parse_lines_reverse(&lines)
}

} // verus!
