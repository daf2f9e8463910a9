//! The lines of a log file: its bytes parted at the line feeds, each part
//! decoded as text, and the parts that are no text left out.

use vstd::prelude::*;
use vstd::slice::slice_subrange;
use vstd::utf8::{decode_utf8, valid_utf8};

verus! {

/// The byte that ends a line.
pub const LINE_FEED: u8 = 10;

/// The byte that may stand before the line feed and is then no part of the
/// line.
pub const CARRIAGE_RETURN: u8 = 13;

/// The first line feed of `bytes` stands at position `i`.
pub open spec fn first_line_feed(bytes: Seq<u8>, i: int) -> bool {
    0 <= i < bytes.len() && bytes[i] == LINE_FEED && forall|j: int|
        0 <= j < i ==> bytes[j] != LINE_FEED
}

/// A line without the carriage return at its end, if it has one.
pub open spec fn without_return(line: Seq<u8>) -> Seq<u8> {
    if line.len() > 0 && line.last() == CARRIAGE_RETURN {
        line.drop_last()
    } else {
        line
    }
}

/// The text of a line as a sequence of at most one text: none where the
/// bytes are not well-formed UTF-8.
pub open spec fn line_text(line: Seq<u8>) -> Seq<Seq<char>> {
    if valid_utf8(line) {
        seq![decode_utf8(line)]
    } else {
        Seq::empty()
    }
}

/// The lines of a file as texts, in the order of the file. A line ends at a
/// line feed; a carriage return right before the line feed is dropped with
/// it. What follows the last line feed is a line too, unless it is empty.
/// Lines that are not well-formed UTF-8 are left out.
pub open spec fn text_lines(bytes: Seq<u8>) -> Seq<Seq<char>>
    decreases bytes.len(),
{
    if bytes.len() == 0 {
        Seq::empty()
    } else if exists|i: int| first_line_feed(bytes, i) {
        let i = choose|i: int| first_line_feed(bytes, i);
        if 0 <= i < bytes.len() {
            line_text(without_return(bytes.take(i))) + text_lines(bytes.skip(i + 1))
        } else {
            Seq::empty()
        }
    } else {
        line_text(bytes)
    }
}

/// The texts of a log's lines.
pub open spec fn lines_text(lines: Seq<String>) -> Seq<Seq<char>> {
    Seq::new(lines.len(), |i: int| lines[i]@)
}

/// The lines of bytes whose first line feed stands at `i`: the first line,
/// and the lines of what follows the line feed.
pub proof fn lemma_text_lines_step(bytes: Seq<u8>, i: int)
    requires
        first_line_feed(bytes, i),
    ensures
        text_lines(bytes) == line_text(without_return(bytes.take(i))) + text_lines(
            bytes.skip(i + 1),
        ),
{
    let c = choose|k: int| first_line_feed(bytes, k);
    assert(first_line_feed(bytes, c));
    if c < i {
        assert(bytes[c] != LINE_FEED);
    }
    if i < c {
        assert(bytes[i] != LINE_FEED);
    }
}

/// Calls `core::str::from_utf8`. Believed of it: it succeeds exactly on
/// well-formed UTF-8, and the slice it hands back holds the characters that
/// the bytes encode.
#[verifier::external_body]
pub(crate) fn decode_text(bytes: &[u8]) -> (r: Option<&str>)
    ensures
        match r {
            Some(text) => valid_utf8(bytes@) && text@ == decode_utf8(bytes@),
            None => !valid_utf8(bytes@),
        },
{
    match core::str::from_utf8(bytes) {
        Ok(text) => Some(text),
        Err(_) => None,
    }
}

/// Parts the bytes of a file into its lines of text.
pub fn read_lines(bytes: &[u8]) -> (lines: Vec<String>)
    ensures
        lines_text(lines@) == text_lines(bytes@),
{
    let mut lines: Vec<String> = Vec::new();
    let mut start: usize = 0;
    let mut i: usize = 0;
    proof {
        assert(bytes@.skip(0) =~= bytes@);
        assert(lines_text(lines@) + text_lines(bytes@) =~= text_lines(bytes@));
    }
    while i < bytes.len()
        invariant
            start <= i <= bytes.len(),
            forall|j: int| start <= j < i ==> bytes@[j] != LINE_FEED,
            text_lines(bytes@) == lines_text(lines@) + text_lines(bytes@.skip(start as int)),
        decreases bytes.len() - i,
    {
        if bytes[i] == LINE_FEED {
            let end: usize = if i > start && bytes[i - 1] == CARRIAGE_RETURN {
                i - 1
            } else {
                i
            };
            let raw = slice_subrange(bytes, start, end);
            let ghost rest = bytes@.skip(start as int);
            let ghost before = lines_text(lines@);
            proof {
                assert(first_line_feed(rest, i - start));
                lemma_text_lines_step(rest, i - start);
                assert(rest.take(i - start) =~= bytes@.subrange(start as int, i as int));
                assert(without_return(rest.take(i - start)) =~= raw@);
                assert(rest.skip(i - start + 1) =~= bytes@.skip(i + 1));
            }
            match decode_text(raw) {
                Some(text) => {
                    let line = text.to_owned();
                    proof {
                        assert(lines_text(lines@.push(line)) =~= before + seq![line@]);
                    }
                    lines.push(line);
                },
                None => {},
            }
            proof {
                assert(lines_text(lines@) =~= before + line_text(raw@));
                assert(before + (line_text(raw@) + text_lines(bytes@.skip(i + 1))) =~= (before
                    + line_text(raw@)) + text_lines(bytes@.skip(i + 1)));
            }
            start = i + 1;
        }
        i += 1;
    }
    let ghost rest = bytes@.skip(start as int);
    let ghost before = lines_text(lines@);
    if start < bytes.len() {
        let raw = slice_subrange(bytes, start, bytes.len());
        proof {
            assert(raw@ =~= rest);
            assert forall|k: int| !first_line_feed(rest, k) by {
                if 0 <= k < rest.len() {
                    assert(rest[k] == bytes@[start + k]);
                }
            }
        }
        match decode_text(raw) {
            Some(text) => {
                let line = text.to_owned();
                proof {
                    assert(lines_text(lines@.push(line)) =~= before + seq![line@]);
                }
                lines.push(line);
            },
            None => {
                proof {
                    assert(before + Seq::<Seq<char>>::empty() =~= before);
                }
            },
        }
    } else {
        proof {
            assert(before + Seq::<Seq<char>>::empty() =~= before);
        }
    }
    lines
}

} // verus!
