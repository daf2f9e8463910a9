//! The grammar of a log line: the matchers for its parts.

use crate::model::{PlayerData, PlayerView};
use crate::text::{
    cut, cut_nonempty, lemma_cut_parts, lemma_first_index_is, numeral_u8, occurs_at, opt_text,
    pair_text, parse_u8, same_text, split_at_first, split_at_first_nonempty, strip_prefix, tag,
};
use vstd::prelude::*;
use vstd::string::StrSliceExecFns;

verus! {

/// One cut of `s` at the first occurrence of `t`, which with `strict` needs
/// text in front of the delimiter.
pub open spec fn one_cut(s: Seq<char>, t: Seq<char>, strict: bool) -> Option<
    (Seq<char>, Seq<char>),
> {
    if strict {
        cut_nonempty(s, t)
    } else {
        cut(s, t)
    }
}

/// `s` cut at `t` again and again: at the first occurrence of `t`, then at
/// the first occurrence in what follows that cut, and so on while a cut can
/// be made. The result is the last cut: what stands between it and the cut
/// before (or the start of `s`), and what follows it. With `strict`, a cut
/// needs text in front of the delimiter, and the cutting ends where there is
/// none.
pub open spec fn last_cut(s: Seq<char>, t: Seq<char>, strict: bool) -> Option<
    (Seq<char>, Seq<char>),
>
    decreases s.len(),
{
    match one_cut(s, t, strict) {
        None => None,
        Some((front, tail)) => if tail.len() < s.len() {
            match last_cut(tail, t, strict) {
                Some(later) => Some(later),
                None => Some((front, tail)),
            }
        } else {
            Some((front, tail))
        },
    }
}

/// `j` is the position of the last blank of `s`.
pub open spec fn last_space_at(s: Seq<char>, j: int) -> bool {
    0 <= j < s.len() && s[j] == ' ' && forall|k: int| j < k < s.len() ==> s[k] != ' '
}

/// `s` split at its last blank: the token behind it, and all that stands
/// before it.
pub open spec fn split_last_space(s: Seq<char>) -> Option<(Seq<char>, Seq<char>)> {
    if exists|j: int| last_space_at(s, j) {
        let j = choose|j: int| last_space_at(s, j);
        Some((s.skip(j + 1), s.take(j)))
    } else {
        None
    }
}

/// A line that carries a time stamp, as `(level) [time] [id]: rest`: the rest
/// and the time.
pub open spec fn timestamped_line(line: Seq<char>) -> Option<(Seq<char>, Seq<char>)> {
    match cut_nonempty(line, "["@) {
        None => None,
        Some((_, opened)) => match cut_nonempty(opened, "]"@) {
            None => None,
            Some((time_code, closed)) => match cut_nonempty(closed, "]: "@) {
                None => None,
                Some((_, tail)) => Some((tail, time_code)),
            },
        },
    }
}

/// The line says that a match begins.
pub open spec fn game_start_line(tail: Seq<char>) -> bool {
    tail == "GameApp::SetState : new (Game)"@
}

/// `category -- rest`: the rest and the category.
pub open spec fn param_line(tail: Seq<char>) -> Option<(Seq<char>, Seq<char>)> {
    match cut_nonempty(tail, " -- "@) {
        Some((param, rest)) => Some((rest, param)),
        None => None,
    }
}

/// `field: value`: the value and the field's name.
pub open spec fn game_sub_param(tail: Seq<char>) -> Option<(Seq<char>, Seq<char>)> {
    match cut_nonempty(tail, ":"@) {
        Some((sub_param, rest)) => Some((rest, sub_param)),
        None => None,
    }
}

/// The name that the line gives for the player at this machine: what stands
/// between the last two closing brackets behind the tag, or before the only
/// one.
pub open spec fn game_player_name(tail: Seq<char>) -> Option<Seq<char>> {
    match strip_prefix(tail, "Current Steam name is ["@) {
        None => None,
        Some(name_tail) => match last_cut(name_tail, "]"@, false) {
            Some((name, _)) => Some(name),
            None => None,
        },
    }
}

/// The language code that the line gives.
pub open spec fn game_language(tail: Seq<char>) -> Option<Seq<char>> {
    match strip_prefix(tail, "[Company of Heroes 3] set to language ["@) {
        None => None,
        Some(language_tail) => match cut_nonempty(language_tail, "]"@) {
            Some((language, _)) => Some(language),
            None => None,
        },
    }
}

/// The platform identifier that the line gives for the player at this machine.
pub open spec fn game_player_steam_id(tail: Seq<char>) -> Option<Seq<char>> {
    strip_prefix(tail, "Found profile: /steam/"@)
}

/// The base name of a scenario's path, and the path segment before it. Every
/// segment but the last is non-empty and ends in a backslash.
pub open spec fn map_name(scenario_tail: Seq<char>) -> Option<(Seq<char>, Seq<char>)> {
    match last_cut(scenario_tail, "\\"@, true) {
        Some((front, name)) => Some((name, front)),
        None => None,
    }
}

/// The frame count, as text, of a line that reports the end of a match.
pub open spec fn game_over(tail: Seq<char>) -> Option<Seq<char>> {
    strip_prefix(tail, "Game Over at frame "@)
}

/// What a player line holds behind its field name: a blank, the position,
/// the name, the identifier, the side and the faction, each parted from the
/// next by one blank. The name is what is left once the three last tokens are
/// taken off, and may hold blanks itself. A player the computer plays has the
/// identifier `-1` whatever the line says.
pub open spec fn player_line(tail: Seq<char>, ai: bool) -> Option<(PlayerView, u8)> {
    match strip_prefix(tail, " "@) {
        None => None,
        Some(without_space) => match cut_nonempty(without_space, " "@) {
            None => None,
            Some((position_text, rest)) => match split_last_space(rest) {
                None => None,
                Some((faction, front)) => match split_last_space(front) {
                    None => None,
                    Some((side_text, front)) => match split_last_space(front) {
                        None => None,
                        Some((relic_id, name)) => match (
                            numeral_u8(position_text),
                            numeral_u8(side_text),
                        ) {
                            (Some(position), Some(side)) => Some(
                                (
                                    PlayerView {
                                        ai,
                                        faction,
                                        relic_id: if ai {
                                            "-1"@
                                        } else {
                                            relic_id
                                        },
                                        name,
                                        position,
                                        steam_id: Seq::empty(),
                                        rank: -1i64,
                                    },
                                    side,
                                ),
                            ),
                            _ => None,
                        },
                    },
                },
            },
        },
    }
}

/// What holds of every player that a log gives: the rank is -1 and the
/// platform identifier is empty, and a player that the computer plays has the
/// identifier `-1`.
pub open spec fn well_formed_player(player: PlayerView) -> bool {
    &&& player.rank == -1
    &&& player.steam_id == Seq::<char>::empty()
    &&& player.ai ==> player.relic_id == "-1"@
}

/// A player read from a line is well formed, and the computer plays it
/// exactly where the line was read as that of a computer player.
pub proof fn lemma_player_line(tail: Seq<char>, ai: bool)
    ensures
        player_line(tail, ai) matches Some((player, _)) ==> well_formed_player(player)
            && player.ai == ai,
{
}

/// The last cut is the last: what follows it admits no further cut, and the
/// two parts with the delimiter between them are the end of the text.
pub proof fn lemma_last_cut_is_last(s: Seq<char>, t: Seq<char>, strict: bool)
    requires
        t.len() > 0,
        last_cut(s, t, strict).is_some(),
    ensures
        one_cut(last_cut(s, t, strict).unwrap().1, t, strict).is_none(),
        exists|k: int|
            0 <= k <= s.len() && #[trigger] s.skip(k) == last_cut(s, t, strict).unwrap().0 + t
                + last_cut(s, t, strict).unwrap().1,
    decreases s.len(),
{
    lemma_cut_parts(s, t);
    let (front, tail) = one_cut(s, t, strict).unwrap();
    let at: int = front.len() as int;
    if last_cut(tail, t, strict).is_some() {
        lemma_last_cut_is_last(tail, t, strict);
        let (last_front, last_tail) = last_cut(tail, t, strict).unwrap();
        let k = choose|k: int|
            0 <= k <= tail.len() && #[trigger] tail.skip(k) == last_front + t + last_tail;
        assert(s.skip(at + t.len() + k) =~= tail.skip(k));
    } else {
        assert(s.skip(0) =~= front + t + tail) by {
            assert(s.subrange(at, at + t.len()) == t);
        }
    }
}

/// The last blank of a text is the only last blank.
pub proof fn lemma_split_last_space_is(s: Seq<char>, j: int)
    requires
        last_space_at(s, j),
    ensures
        split_last_space(s) == Some((s.skip(j + 1), s.take(j))),
{
    let c = choose|k: int| last_space_at(s, k);
    assert(last_space_at(s, c));
    if c < j {
        assert(s[j] != ' ');
    }
    if j < c {
        assert(s[c] != ' ');
    }
}

/// A blank occurs at a position exactly where the character there is one.
pub proof fn lemma_space_occurs(s: Seq<char>, i: int)
    ensures
        occurs_at(s, " "@, i) <==> (0 <= i < s.len() && s[i] == ' '),
{
    reveal_strlit(" ");
    if 0 <= i < s.len() {
        if s[i] == ' ' {
            assert(s.subrange(i, i + 1) =~= " "@);
        } else {
            assert(s.subrange(i, i + 1)[0] == s[i]);
        }
    }
}

/// Strips a leading blank.
pub fn get_without_leading_space(line: &str) -> (r: Option<&str>)
    ensures
        opt_text(r) == strip_prefix(line@, " "@),
{
    tag(line, " ")
}

/// Matches a line with a time stamp, and hands back the rest and the time.
pub fn get_timestamped_line(line: &str) -> (r: Option<(&str, &str)>)
    ensures
        pair_text(r) == timestamped_line(line@),
{
    match split_at_first_nonempty(line, "[") {
        None => None,
        Some((_, opened)) => match split_at_first_nonempty(opened, "]") {
            None => None,
            Some((time_code, closed)) => match split_at_first_nonempty(closed, "]: ") {
                None => None,
                Some((_, tail)) => Some((tail, time_code)),
            },
        },
    }
}

/// Tells whether the rest of a line says that a match begins.
pub fn is_game_start_line(timestamped_tail: &str) -> (r: bool)
    ensures
        r == game_start_line(timestamped_tail@),
{
    same_text(timestamped_tail, "GameApp::SetState : new (Game)")
}

/// Splits `category -- rest`, and hands back the rest and the category.
pub fn get_param_line(timestamped_tail: &str) -> (r: Option<(&str, &str)>)
    ensures
        pair_text(r) == param_line(timestamped_tail@),
{
    match split_at_first_nonempty(timestamped_tail, " -- ") {
        Some((param, tail)) => Some((tail, param)),
        None => None,
    }
}

/// Splits `field: value`, and hands back the value and the field's name.
pub fn get_game_sub_param(game_param_tail: &str) -> (r: Option<(&str, &str)>)
    ensures
        pair_text(r) == game_sub_param(game_param_tail@),
{
    match split_at_first_nonempty(game_param_tail, ":") {
        Some((sub_param, tail)) => Some((tail, sub_param)),
        None => None,
    }
}

/// Cuts `s` again and again behind the delimiter, and hands back the parts
/// around the last cut.
pub fn cut_last<'a>(s: &'a str, t: &str, strict: bool) -> (r: Option<(&'a str, &'a str)>)
    requires
        t@.len() > 0,
    ensures
        pair_text(r) == last_cut(s@, t@, strict),
{
    let mut cur = s;
    let mut best: Option<(&'a str, &'a str)> = None;
    loop
        invariant
            t@.len() > 0,
            last_cut(s@, t@, strict) == (match last_cut(cur@, t@, strict) {
                Some(later) => Some(later),
                None => pair_text(best),
            }),
        decreases cur@.len(),
    {
        let step = if strict {
            split_at_first_nonempty(cur, t)
        } else {
            split_at_first(cur, t)
        };
        match step {
            None => {
                return best;
            },
            Some((front, tail)) => {
                proof {
                    lemma_first_index_is(cur@, t@, front@.len() as int);
                    lemma_cut_parts(cur@, t@);
                }
                best = Some((front, tail));
                cur = tail;
            },
        }
    }
}

/// Hands back what stands between the last two occurrences of `tag` in
/// `line` (or before the only one), and what follows the last.
pub fn get_till_last_tag<'a>(line: &'a str, tag: &str) -> (r: Option<(&'a str, &'a str)>)
    requires
        tag@.len() > 0,
    ensures
        pair_text(r) == last_cut(line@, tag@, false),
{
    cut_last(line, tag, false)
}

/// Hands back the base name of a scenario's path, and the segment before it.
pub fn get_map_name(scenario_tail: &str) -> (r: Option<(&str, &str)>)
    ensures
        pair_text(r) == map_name(scenario_tail@),
{
    proof {
        reveal_strlit("\\");
    }
    match cut_last(scenario_tail, "\\", true) {
        Some((front, name)) => Some((name, front)),
        None => None,
    }
}

/// Hands back the name of the player at this machine.
pub fn get_game_player_name(game_param_tail: &str) -> (r: Option<&str>)
    ensures
        opt_text(r) == game_player_name(game_param_tail@),
{
    proof {
        reveal_strlit("]");
    }
    match tag(game_param_tail, "Current Steam name is [") {
        None => None,
        Some(name_tail) => match get_till_last_tag(name_tail, "]") {
            Some((name, _)) => Some(name),
            None => None,
        },
    }
}

/// Hands back the language code.
pub fn get_game_language(game_param_tail: &str) -> (r: Option<&str>)
    ensures
        opt_text(r) == game_language(game_param_tail@),
{
    match tag(game_param_tail, "[Company of Heroes 3] set to language [") {
        None => None,
        Some(language_tail) => match split_at_first_nonempty(language_tail, "]") {
            Some((language, _)) => Some(language),
            None => None,
        },
    }
}

/// Hands back the platform identifier of the player at this machine.
pub fn get_game_player_steam_id(timestamped_tail: &str) -> (r: Option<&str>)
    ensures
        opt_text(r) == game_player_steam_id(timestamped_tail@),
{
    tag(timestamped_tail, "Found profile: /steam/")
}

/// Hands back the frame count, as text, of a line that reports the end of a
/// match.
pub fn get_game_over(mod_param_tail: &str) -> (r: Option<&str>)
    ensures
        opt_text(r) == game_over(mod_param_tail@),
{
    tag(mod_param_tail, "Game Over at frame ")
}

/// Splits a text at its last blank, and hands back the token behind it and
/// all that stands before it.
pub fn get_last_separated_by_space(line: &str) -> (r: Option<(&str, &str)>)
    ensures
        pair_text(r) == split_last_space(line@),
{
    let mut cur = line;
    let mut found = false;
    let ghost mut off: int = 0;
    loop
        invariant
            0 <= off <= line@.len(),
            cur@ == line@.skip(off),
            found == (off > 0),
            found ==> line@[off - 1] == ' ',
        decreases cur@.len(),
    {
        match split_at_first(cur, " ") {
            None => {
                proof {
                    assert forall|k: int| off <= k < line@.len() implies line@[k] != ' ' by {
                        lemma_space_occurs(cur@, k - off);
                    }
                }
                if !found {
                    proof {
                        assert forall|j: int| !last_space_at(line@, j) by {}
                    }
                    return None;
                }
                proof {
                    lemma_split_last_space_is(line@, off - 1);
                    assert(line@.skip(off - 1 + 1) == cur@);
                }
                let total: usize = line.unicode_len();
                let rest: usize = cur.unicode_len();
                let front = line.substring_char(0, total - rest - 1);
                return Some((cur, front));
            },
            Some((front, tail)) => {
                proof {
                    reveal_strlit(" ");
                    lemma_first_index_is(cur@, " "@, front@.len() as int);
                    lemma_cut_parts(cur@, " "@);
                    lemma_space_occurs(cur@, front@.len() as int);
                    assert(line@.skip(off).skip(front@.len() as int + 1) =~= line@.skip(
                        off + front@.len() + 1,
                    ));
                    off = off + front@.len() + 1;
                }
                cur = tail;
                found = true;
            },
        }
    }
}

/// Reads a player from what stands behind the field name of a player line,
/// with the number of the player's side.
pub fn parse_player_line(tail: &str, ai: bool) -> (r: Option<(PlayerData, u8)>)
    ensures
        match r {
            Some((player, side)) => player_line(tail@, ai) == Some((player@, side)),
            None => player_line(tail@, ai).is_none(),
        },
{
    let without_space = match get_without_leading_space(tail) {
        Some(t) => t,
        None => {
            return None;
        },
    };
    let (position_str, rest) = match split_at_first_nonempty(without_space, " ") {
        Some(p) => p,
        None => {
            return None;
        },
    };
    let (faction, front) = match get_last_separated_by_space(rest) {
        Some(p) => p,
        None => {
            return None;
        },
    };
    let (side_str, front) = match get_last_separated_by_space(front) {
        Some(p) => p,
        None => {
            return None;
        },
    };
    let (relic_id, user_name) = match get_last_separated_by_space(front) {
        Some(p) => p,
        None => {
            return None;
        },
    };
    let position: u8 = match parse_u8(position_str) {
        Some(v) => v,
        None => {
            return None;
        },
    };
    let side: u8 = match parse_u8(side_str) {
        Some(v) => v,
        None => {
            return None;
        },
    };
    let player = PlayerData {
        ai,
        faction: faction.to_owned(),
        relic_id: if ai {
            "-1".to_owned()
        } else {
            relic_id.to_owned()
        },
        name: user_name.to_owned(),
        position,
        steam_id: String::new(),
        rank: -1,
    };
    Some((player, side))
}

} // verus!
