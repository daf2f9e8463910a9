//! Text as sequences of characters: where a delimiter occurs, what an unsigned
//! decimal numeral denotes, and the calls that search, cut and convert text.

use vstd::prelude::*;
use vstd::string::StrSliceExecFns;

verus! {

/// `t` occurs in `s` at position `i`.
pub open spec fn occurs_at(s: Seq<char>, t: Seq<char>, i: int) -> bool {
    0 <= i && i + t.len() <= s.len() && s.subrange(i, i + t.len()) == t
}

/// `i` is the first position at which `t` occurs in `s`.
pub open spec fn first_at(s: Seq<char>, t: Seq<char>, i: int) -> bool {
    occurs_at(s, t, i) && forall|j: int| 0 <= j < i ==> !occurs_at(s, t, j)
}

/// The first position at which `t` occurs in `s`, if it occurs at all.
pub open spec fn first_index(s: Seq<char>, t: Seq<char>) -> Option<int> {
    if exists|i: int| first_at(s, t, i) {
        Some(choose|i: int| first_at(s, t, i))
    } else {
        None
    }
}

/// What is left of `s` once the prefix `t` is taken off.
pub open spec fn strip_prefix(s: Seq<char>, t: Seq<char>) -> Option<Seq<char>> {
    if t.is_prefix_of(s) {
        Some(s.skip(t.len() as int))
    } else {
        None
    }
}

/// `s` cut at the first occurrence of `t`: what stands before it and what
/// stands after it.
pub open spec fn cut(s: Seq<char>, t: Seq<char>) -> Option<(Seq<char>, Seq<char>)> {
    match first_index(s, t) {
        Some(i) => Some((s.take(i), s.skip(i + t.len()))),
        None => None,
    }
}

/// As `cut`, but only where something stands before the delimiter.
pub open spec fn cut_nonempty(s: Seq<char>, t: Seq<char>) -> Option<(Seq<char>, Seq<char>)> {
    match first_index(s, t) {
        Some(i) => if i >= 1 {
            Some((s.take(i), s.skip(i + t.len())))
        } else {
            None
        },
        None => None,
    }
}

/// The views of a pair of string slices.
pub open spec fn pair_text(p: Option<(&str, &str)>) -> Option<(Seq<char>, Seq<char>)> {
    match p {
        Some((a, b)) => Some((a@, b@)),
        None => None,
    }
}

/// The view of an optional string slice.
pub open spec fn opt_text(p: Option<&str>) -> Option<Seq<char>> {
    match p {
        Some(a) => Some(a@),
        None => None,
    }
}

/// A first occurrence is the only first occurrence.
pub proof fn lemma_first_index_is(s: Seq<char>, t: Seq<char>, i: int)
    requires
        first_at(s, t, i),
    ensures
        first_index(s, t) == Some(i),
{
    let c = choose|k: int| first_at(s, t, k);
    assert(first_at(s, t, c));
    if c < i {
        assert(!occurs_at(s, t, c));
    }
    if i < c {
        assert(!occurs_at(s, t, i));
    }
}

/// Where `t` occurs nowhere, there is no first occurrence.
pub proof fn lemma_first_index_none(s: Seq<char>, t: Seq<char>)
    requires
        forall|i: int| !occurs_at(s, t, i),
    ensures
        first_index(s, t).is_none(),
{
}

/// An occurrence at `i` is a prefix of what starts at `i`.
pub proof fn lemma_occurrence_is_prefix(s: Seq<char>, t: Seq<char>, i: int)
    requires
        occurs_at(s, t, i),
    ensures
        t.is_prefix_of(s.skip(i)),
        s.skip(i).skip(t.len() as int) == s.skip(i + t.len()),
{
    assert(s.skip(i).subrange(0, t.len() as int) =~= s.subrange(i, i + t.len()));
    assert(s.skip(i).skip(t.len() as int) =~= s.skip(i + t.len()));
}

/// Below an occurrence there is a first occurrence.
pub proof fn lemma_occurrence_has_first(s: Seq<char>, t: Seq<char>, i: int)
    requires
        occurs_at(s, t, i),
    ensures
        exists|k: int| first_at(s, t, k) && k <= i,
    decreases i,
{
    if forall|j: int| 0 <= j < i ==> !occurs_at(s, t, j) {
        assert(first_at(s, t, i));
    } else {
        let j = choose|j: int| 0 <= j < i && occurs_at(s, t, j);
        lemma_occurrence_has_first(s, t, j);
    }
}

/// A cut fails exactly where the delimiter occurs nowhere.
pub proof fn lemma_cut_fails(s: Seq<char>, t: Seq<char>)
    ensures
        cut(s, t).is_none() <==> forall|i: int| !occurs_at(s, t, i),
{
    if cut(s, t).is_none() {
        assert forall|i: int| !occurs_at(s, t, i) by {
            if occurs_at(s, t, i) {
                lemma_occurrence_has_first(s, t, i);
            }
        }
    } else {
        lemma_cut_parts(s, t);
    }
}

/// What a successful cut yields: the delimiter stands between the two parts,
/// and not earlier.
pub proof fn lemma_cut_parts(s: Seq<char>, t: Seq<char>)
    requires
        cut(s, t).is_some(),
    ensures
        first_at(s, t, cut(s, t).unwrap().0.len() as int),
        cut(s, t).unwrap().0 == s.take(cut(s, t).unwrap().0.len() as int),
        cut(s, t).unwrap().1 == s.skip(cut(s, t).unwrap().0.len() as int + t.len()),
        cut(s, t).unwrap().0.len() + t.len() + cut(s, t).unwrap().1.len() == s.len(),
{
    let c = choose|k: int| first_at(s, t, k);
    assert(first_at(s, t, c));
}

/// The value of a decimal digit.
pub open spec fn digit_value(c: char) -> Option<int> {
    if '0' <= c && c <= '9' {
        Some(c as int - '0' as int)
    } else {
        None
    }
}

/// The number that a non-empty run of decimal digits denotes.
pub open spec fn digits_value(s: Seq<char>) -> Option<int>
    decreases s.len(),
{
    if s.len() == 0 {
        None
    } else if s.len() == 1 {
        digit_value(s[0])
    } else {
        match (digits_value(s.drop_last()), digit_value(s.last())) {
            (Some(high), Some(low)) => Some(10 * high + low),
            _ => None,
        }
    }
}

/// The number that an unsigned numeral denotes: decimal digits, which a single
/// `+` may precede. No other character is admitted, blanks included.
pub open spec fn numeral_value(s: Seq<char>) -> Option<int> {
    if s.len() > 0 && s[0] == '+' {
        digits_value(s.skip(1))
    } else {
        digits_value(s)
    }
}

/// The numeral read as a `u8`, where its value fits.
pub open spec fn numeral_u8(s: Seq<char>) -> Option<u8> {
    match numeral_value(s) {
        Some(v) => if v <= u8::MAX {
            Some(v as u8)
        } else {
            None
        },
        None => None,
    }
}

/// The numeral read as a `u64`, where its value fits.
pub open spec fn numeral_u64(s: Seq<char>) -> Option<u64> {
    match numeral_value(s) {
        Some(v) => if v <= u64::MAX {
            Some(v as u64)
        } else {
            None
        },
        None => None,
    }
}

/// Whether a character is white space: what `char::is_whitespace` tells of
/// it, which is whether it has the Unicode property `White_Space`.
pub uninterp spec fn white_space(c: char) -> bool;

/// A text without the white space at its start.
pub open spec fn trimmed_start(s: Seq<char>) -> Seq<char>
    decreases s.len(),
{
    if s.len() > 0 && white_space(s[0]) {
        trimmed_start(s.skip(1))
    } else {
        s
    }
}

/// A text without the white space at its end.
pub open spec fn trimmed_end(s: Seq<char>) -> Seq<char>
    decreases s.len(),
{
    if s.len() > 0 && white_space(s.last()) {
        trimmed_end(s.drop_last())
    } else {
        s
    }
}

/// A text without the white space at its two ends.
pub open spec fn trimmed(s: Seq<char>) -> Seq<char> {
    trimmed_end(trimmed_start(s))
}

/// Calls `nom::bytes::complete::tag` with `t` on `s`. Believed of it: it
/// succeeds exactly where `s` begins with `t`, and the rest that it hands
/// back is `s` without that prefix.
#[verifier::external_body]
pub(crate) fn tag<'a>(s: &'a str, t: &str) -> (r: Option<&'a str>)
    ensures
        opt_text(r) == strip_prefix(s@, t@),
{
    match nom::bytes::complete::tag::<&str, &str, ()>(t)(s) {
        Ok((rest, _)) => Some(rest),
        Err(_) => None,
    }
}

/// Calls `nom::bytes::complete::take_until` with `t` on `s`. Believed of it:
/// it splits `s` in front of the first occurrence of `t`, handing back what
/// starts there and what stands before it, and fails exactly where `t` does
/// not occur in `s`.
#[verifier::external_body]
pub(crate) fn take_until<'a>(s: &'a str, t: &str) -> (r: Option<(&'a str, &'a str)>)
    ensures
        match r {
            Some((rest, front)) => first_at(s@, t@, front@.len() as int) && front@ == s@.take(
                front@.len() as int,
            ) && rest@ == s@.skip(front@.len() as int),
            None => forall|i: int| !occurs_at(s@, t@, i),
        },
{
    match nom::bytes::complete::take_until::<&str, &str, ()>(t)(s) {
        Ok((rest, front)) => Some((rest, front)),
        Err(_) => None,
    }
}

/// Calls `nom::bytes::complete::take_until1` with `t` on `s`. Believed of it:
/// it does what `take_until` does, but fails as well where the first
/// occurrence of `t` stands at the very start of `s`.
#[verifier::external_body]
pub(crate) fn take_until1<'a>(s: &'a str, t: &str) -> (r: Option<(&'a str, &'a str)>)
    ensures
        match r {
            Some((rest, front)) => front@.len() >= 1 && first_at(s@, t@, front@.len() as int)
                && front@ == s@.take(front@.len() as int) && rest@ == s@.skip(
                front@.len() as int,
            ),
            None => forall|i: int| first_at(s@, t@, i) ==> i == 0,
        },
{
    match nom::bytes::complete::take_until1::<&str, &str, ()>(t)(s) {
        Ok((rest, front)) => Some((rest, front)),
        Err(_) => None,
    }
}

/// Calls `==` of `str`. Believed of it: two slices are equal exactly where
/// they hold the same characters.
#[verifier::external_body]
pub(crate) fn same_text(a: &str, b: &str) -> (r: bool)
    ensures
        r == (a@ == b@),
{
    a == b
}

/// Calls `char::is_whitespace`. Believed of it: what it tells depends on
/// the character alone.
#[verifier::external_body]
pub(crate) fn is_whitespace(c: char) -> (r: bool)
    ensures
        r == white_space(c),
{
    c.is_whitespace()
}

/// Calls `str::parse` for `u8`. Believed of it: it accepts decimal digits,
/// which a single `+` may precede, and nothing else, gives the number they
/// denote, and fails where that number is above 255.
#[verifier::external_body]
pub(crate) fn parse_u8(s: &str) -> (r: Option<u8>)
    ensures
        r == numeral_u8(s@),
{
    match s.parse::<u8>() {
        Ok(v) => Some(v),
        Err(_) => None,
    }
}

/// Calls `str::parse` for `u64`. Believed of it: it accepts decimal digits,
/// which a single `+` may precede, and nothing else, gives the number they
/// denote, and fails where that number does not fit into 64 bits.
#[verifier::external_body]
pub(crate) fn parse_u64(s: &str) -> (r: Option<u64>)
    ensures
        r == numeral_u64(s@),
{
    match s.parse::<u64>() {
        Ok(v) => Some(v),
        Err(_) => None,
    }
}

/// Takes the white space off the two ends of a text.
pub fn trim(s: &str) -> (r: &str)
    ensures
        r@ == trimmed(s@),
{
    let n: usize = s.unicode_len();
    let mut start: usize = 0;
    proof {
        assert(s@.skip(0) =~= s@);
    }
    while start < n && is_whitespace(s.get_char(start))
        invariant
            start <= n == s@.len(),
            trimmed_start(s@) == trimmed_start(s@.skip(start as int)),
        decreases n - start,
    {
        proof {
            assert(s@.skip(start as int).skip(1) =~= s@.skip(start + 1));
        }
        start += 1;
    }
    let ghost inner = s@.skip(start as int);
    assert(trimmed_start(s@) == inner);
    let mut end: usize = n;
    proof {
        assert(s@.subrange(start as int, n as int) =~= inner);
    }
    while end > start && is_whitespace(s.get_char(end - 1))
        invariant
            start <= end <= n == s@.len(),
            trimmed_end(inner) == trimmed_end(s@.subrange(start as int, end as int)),
        decreases end,
    {
        proof {
            assert(s@.subrange(start as int, end as int).drop_last() =~= s@.subrange(
                start as int,
                end - 1,
            ));
        }
        end -= 1;
    }
    s.substring_char(start, end)
}

/// Cuts `s` at the first occurrence of `t`.
pub fn split_at_first<'a>(s: &'a str, t: &str) -> (r: Option<(&'a str, &'a str)>)
    ensures
        pair_text(r) == cut(s@, t@),
        r.is_some() ==> first_at(s@, t@, r.unwrap().0@.len() as int),
        r.is_none() ==> forall|i: int| !occurs_at(s@, t@, i),
{
    match take_until(s, t) {
        Some((rest, front)) => {
            proof {
                lemma_first_index_is(s@, t@, front@.len() as int);
                lemma_occurrence_is_prefix(s@, t@, front@.len() as int);
            }
            match tag(rest, t) {
                Some(after) => Some((front, after)),
                None => None,
            }
        },
        None => {
            proof {
                lemma_first_index_none(s@, t@);
            }
            None
        },
    }
}

/// Cuts `s` at the first occurrence of `t`, where something stands before it.
pub fn split_at_first_nonempty<'a>(s: &'a str, t: &str) -> (r: Option<(&'a str, &'a str)>)
    ensures
        pair_text(r) == cut_nonempty(s@, t@),
        r.is_some() ==> first_at(s@, t@, r.unwrap().0@.len() as int),
{
    match take_until1(s, t) {
        Some((rest, front)) => {
            proof {
                lemma_first_index_is(s@, t@, front@.len() as int);
                lemma_occurrence_is_prefix(s@, t@, front@.len() as int);
            }
            match tag(rest, t) {
                Some(after) => Some((front, after)),
                None => None,
            }
        },
        None => {
            proof {
                if first_index(s@, t@).is_some() {
                    let c = choose|k: int| first_at(s@, t@, k);
                    assert(first_at(s@, t@, c));
                }
            }
            None
        },
    }
}

} // verus!
