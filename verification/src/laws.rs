//! What holds of every log: how its record follows from its lines.

use crate::classify::{ai_count, roster_is_mixed};
use crate::event::{lemma_player_event, line_event};
use crate::grammar::well_formed_player;
use crate::model::{GameState, GameType, LogFileView, PlayerView, TeamSide, TeamView};
use crate::scan::{lemma_stopped_scan, log_record, scan, AccumulatorView};
use vstd::prelude::*;

verus! {

/// The reading of the lines from some position on does not depend on the
/// lines before it.
pub proof fn lemma_scan_of_tail(lines: Seq<Seq<char>>, cut: int, from: int)
    requires
        0 <= cut <= from <= lines.len(),
    ensures
        scan(lines.skip(cut), from - cut) == scan(lines, from),
    decreases lines.len() - from,
{
    if from < lines.len() {
        lemma_scan_of_tail(lines, cut, from + 1);
    }
}

/// The record of a log is the record of what stands in it from a line that
/// names the player on: no older line is read.
pub proof fn lemma_player_name_bounds_reading(lines: Seq<Seq<char>>, at: int)
    requires
        0 <= at < lines.len(),
        line_event(lines[at]) is PlayerName,
    ensures
        log_record(lines) == log_record(lines.skip(at)),
{
    assert(scan(lines, at).stopped);
    lemma_stopped_scan(lines, at, 0);
    lemma_scan_of_tail(lines, at, at);
}

/// A log without lines gives the record of a running game in its menu, with
/// no match: no players, no texts, no duration.
pub proof fn lemma_empty_log()
    ensures
        log_record(Seq::empty()) == (LogFileView {
            game_state: GameState::Menu,
            game_type: GameType::Custom,
            timestamp: Seq::empty(),
            duration: 0,
            map: Seq::empty(),
            win_condition: Seq::empty(),
            left: TeamView { players: Seq::empty(), side: TeamSide::Allies },
            right: TeamView { players: Seq::empty(), side: TeamSide::Allies },
            player_name: Seq::empty(),
            player_steam_id: Seq::empty(),
            player_profile_id: Seq::empty(),
            language_code: Seq::empty(),
        }),
{
    let none = Seq::<PlayerView>::empty();
    assert(ai_count(none) == 0);
    assert(!roster_is_mixed(none));
}

/// Once the game is known to be closed, no older line opens it again.
pub proof fn lemma_closed_stays(lines: Seq<Seq<char>>, at: int, from: int)
    requires
        0 <= from <= at <= lines.len(),
        !scan(lines, at).game_running,
    ensures
        !scan(lines, from).game_running,
    decreases at - from,
{
    if from < at {
        lemma_closed_stays(lines, at, from + 1);
    }
}

/// While no line names the player, the reading goes on.
pub proof fn lemma_not_stopped(lines: Seq<Seq<char>>, from: int)
    requires
        0 <= from <= lines.len(),
        forall|k: int| from <= k < lines.len() ==> !(#[trigger] line_event(lines[k]) is PlayerName),
    ensures
        !scan(lines, from).stopped,
    decreases lines.len() - from,
{
    if from < lines.len() {
        lemma_not_stopped(lines, from + 1);
    }
}

/// A line that marks the game as closed, behind which no line names the
/// player, gives the state `Closed`.
pub proof fn lemma_closed_marker(lines: Seq<Seq<char>>, at: int)
    requires
        0 <= at < lines.len(),
        line_event(lines[at]) is Closed,
        forall|k: int| at < k < lines.len() ==> !(#[trigger] line_event(lines[k]) is PlayerName),
    ensures
        log_record(lines).game_state == GameState::Closed,
{
    lemma_not_stopped(lines, at + 1);
    lemma_closed_stays(lines, at, 0);
}

/// A log that ends in the mark of a closed game gives the state `Closed`.
pub proof fn lemma_closed_log(lines: Seq<Seq<char>>)
    requires
        lines.len() > 0,
        "Application closed"@.is_prefix_of(lines.last()),
    ensures
        log_record(lines).game_state == GameState::Closed,
{
    lemma_closed_marker(lines, lines.len() - 1);
}

/// The duration in seconds is the eighth part, rounded down, of the frame
/// count that the reading has gathered.
pub proof fn lemma_duration_in_seconds(lines: Seq<Seq<char>>)
    ensures
        log_record(lines).duration == scan(lines, 0).duration_frames / 8,
{
}

/// Lines that report no end of a match leave the frame count at zero.
pub proof fn lemma_no_frames(lines: Seq<Seq<char>>, from: int)
    requires
        0 <= from <= lines.len(),
        forall|k: int| from <= k < lines.len() ==> !(#[trigger] line_event(lines[k]) is GameOver),
    ensures
        scan(lines, from).duration_frames == 0,
    decreases lines.len() - from,
{
    if from < lines.len() {
        lemma_no_frames(lines, from + 1);
    }
}

/// Two readings hold the same facts of the match: its map, win condition,
/// players, phase and length.
pub open spec fn same_match(a: AccumulatorView, b: AccumulatorView) -> bool {
    &&& a.full_game == b.full_game
    &&& a.map == b.map
    &&& a.win_condition == b.win_condition
    &&& a.left == b.left
    &&& a.right == b.right
    &&& a.game_loading == b.game_loading
    &&& a.game_started == b.game_started
    &&& a.game_ended == b.game_ended
    &&& a.duration_frames == b.duration_frames
}

/// Once the map of the latest match is known or the reading has stopped,
/// older lines change nothing of the match: what earlier matches left in the
/// log does not reach the record.
pub proof fn lemma_latched_match(lines: Seq<Seq<char>>, at: int, from: int)
    requires
        0 <= from <= at <= lines.len(),
        scan(lines, at).full_game || scan(lines, at).stopped,
    ensures
        scan(lines, from).full_game || scan(lines, from).stopped,
        same_match(scan(lines, from), scan(lines, at)),
    decreases at - from,
{
    if from < at {
        lemma_latched_match(lines, at, from + 1);
    }
}

/// The duration is zero where no line behind the boundary of the latest match
/// reports the end of a match. The boundary is the start of the log or the
/// position behind a line that gives a map.
pub proof fn lemma_no_game_over_no_duration(lines: Seq<Seq<char>>, boundary: int)
    requires
        0 <= boundary <= lines.len(),
        boundary > 0 ==> line_event(lines[boundary - 1]) is Scenario,
        forall|k: int|
            boundary <= k < lines.len() ==> !(#[trigger] line_event(lines[k]) is GameOver),
    ensures
        log_record(lines).duration == 0,
{
    lemma_no_frames(lines, boundary);
    if boundary > 0 {
        lemma_latched_match(lines, boundary - 1, 0);
    }
}

/// What the lines from `from` on leave open while none of them closes the
/// game, ends or starts a match, gives a map or names the player.
pub proof fn lemma_quiet_lines(lines: Seq<Seq<char>>, from: int)
    requires
        0 <= from <= lines.len(),
        forall|k: int|
            from <= k < lines.len() ==> {
                let event = #[trigger] line_event(lines[k]);
                !(event is Closed) && !(event is GameOver) && !(event is MissionStart) && !(event
                    is Scenario) && !(event is PlayerName)
            },
    ensures
        scan(lines, from).game_running,
        !scan(lines, from).game_ended,
        !scan(lines, from).game_started,
        !scan(lines, from).full_game,
        !scan(lines, from).stopped,
        scan(lines, from).game_loading <==> exists|k: int|
            from <= k < lines.len() && #[trigger] line_event(lines[k]) is WinCondition,
    decreases lines.len() - from,
{
    if from < lines.len() {
        lemma_quiet_lines(lines, from + 1);
        let later = scan(lines, from + 1);
        if later.game_loading {
            let k = choose|k: int|
                from + 1 <= k < lines.len() && #[trigger] line_event(lines[k]) is WinCondition;
            assert(from <= k < lines.len() && line_event(lines[k]) is WinCondition);
        }
        if scan(lines, from).game_loading && !later.game_loading {
            assert(line_event(lines[from]) is WinCondition);
        }
    }
}

/// A log with a line that gives a win condition, and with no line that
/// closes the game, ends or starts a match, gives a map or names the player,
/// gives the state `Loading`.
pub proof fn lemma_loading_log(lines: Seq<Seq<char>>, at: int)
    requires
        0 <= at < lines.len(),
        line_event(lines[at]) is WinCondition,
        forall|k: int|
            0 <= k < lines.len() ==> {
                let event = #[trigger] line_event(lines[k]);
                !(event is Closed) && !(event is GameOver) && !(event is MissionStart) && !(event
                    is Scenario) && !(event is PlayerName)
            },
    ensures
        log_record(lines).game_state == GameState::Loading,
{
    lemma_quiet_lines(lines, 0);
}

/// Every player that a reading has gathered is well formed.
pub proof fn lemma_players_of_scan(lines: Seq<Seq<char>>, from: int)
    requires
        0 <= from <= lines.len(),
    ensures
        forall|i: int|
            0 <= i < scan(lines, from).left.len() ==> well_formed_player(
                #[trigger] scan(lines, from).left[i],
            ),
        forall|i: int|
            0 <= i < scan(lines, from).right.len() ==> well_formed_player(
                #[trigger] scan(lines, from).right[i],
            ),
    decreases lines.len() - from,
{
    if from < lines.len() {
        lemma_players_of_scan(lines, from + 1);
        lemma_player_event(lines[from]);
        let later = scan(lines, from + 1);
        let now = scan(lines, from);
        assert forall|i: int| 0 <= i < now.left.len() implies well_formed_player(
            #[trigger] now.left[i],
        ) by {
            if i < later.left.len() {
                assert(well_formed_player(later.left[i]));
            }
        }
        assert forall|i: int| 0 <= i < now.right.len() implies well_formed_player(
            #[trigger] now.right[i],
        ) by {
            if i < later.right.len() {
                assert(well_formed_player(later.right[i]));
            }
        }
    }
}

/// Every player of a record is well formed: the rank is -1, the platform
/// identifier is empty, and a player that the computer plays carries the
/// identifier `-1`.
pub proof fn lemma_players_of_record(lines: Seq<Seq<char>>)
    ensures
        forall|i: int|
            0 <= i < log_record(lines).left.players.len() ==> well_formed_player(
                #[trigger] log_record(lines).left.players[i],
            ),
        forall|i: int|
            0 <= i < log_record(lines).right.players.len() ==> well_formed_player(
                #[trigger] log_record(lines).right.players[i],
            ),
{
    lemma_players_of_scan(lines, 0);
}

} // verus!
