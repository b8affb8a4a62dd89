//! Reading characters, fields and numbers out of a line of text.
//!
//! A line is taken as a sequence of characters, and a reader starts at a
//! position in it.  A reader that succeeds says what it read and where the
//! rest begins.

use vstd::prelude::*;
use vstd::std_specs::iter::IteratorSpec;

verus! {

/// `c` is one of the ten digits `0` to `9`.
pub open spec fn is_digit(c: char) -> bool {
    '0' <= c && c <= '9'
}

/// The number that a digit stands for.
pub open spec fn digit_of(c: char) -> int {
    c as u32 as int - 48
}

/// The first position at or after `at` that holds no digit.
pub open spec fn digits_end(s: Seq<char>, at: int) -> int
    decreases s.len() - at,
{
    if 0 <= at < s.len() && is_digit(s[at]) {
        digits_end(s, at + 1)
    } else {
        at
    }
}

/// The number that the digits from position `from` up to, not including,
/// position `to` write in base ten.
pub open spec fn decimal(s: Seq<char>, from: int, to: int) -> int
    decreases to - from,
{
    if to <= from {
        0
    } else {
        10 * decimal(s, from, to - 1) + digit_of(s[to - 1])
    }
}

/// A sixteen-bit number in text, read at position `at`: an optional sign
/// `+` or `-`, then one digit or more, as many as there are.  The result is
/// the number and the position behind its last digit.  There is no number
/// where no digit follows, or where the digits write a number that sixteen
/// bits with a sign cannot hold.
pub open spec fn spec_int16(s: Seq<char>, at: int) -> Option<(i16, int)> {
    let negative = 0 <= at < s.len() && s[at] == '-';
    let signed = negative || (0 <= at < s.len() && s[at] == '+');
    let start = if signed { at + 1 } else { at };
    let end = digits_end(s, start);
    let magnitude = decimal(s, start, end);
    let value = if negative { -magnitude } else { magnitude };
    if start < end && i16::MIN <= value <= i16::MAX {
        Some((value as i16, end))
    } else {
        None
    }
}

/// A sixteen-bit number followed by the character `c`; the position is the
/// one behind `c`.
pub open spec fn spec_int16_then(s: Seq<char>, at: int, c: char) -> Option<(i16, int)> {
    match spec_int16(s, at) {
        Some((value, end)) => if end < s.len() && s[end] == c {
            Some((value, end + 1))
        } else {
            None
        },
        None => None,
    }
}

/// The first position at or after `at` that holds the character `c`.
pub open spec fn spec_find(s: Seq<char>, at: int, c: char) -> Option<int>
    decreases s.len() - at,
{
    if at < 0 || at >= s.len() {
        None
    } else if s[at] == c {
        Some(at)
    } else {
        spec_find(s, at + 1, c)
    }
}

/// The characters of `word` stand in `s` from position `at` on.
pub open spec fn spec_starts(s: Seq<char>, at: int, word: Seq<char>) -> bool {
    0 <= at && at + word.len() <= s.len() && s.subrange(at, at + word.len()) == word
}

/// Where the digits run on from `from` to `i`, the digits that start at
/// `from` end where those that start at `i` end.
pub proof fn lemma_digits_run(s: Seq<char>, from: int, i: int)
    requires
        0 <= from <= i <= s.len(),
        forall|k: int| from <= k < i ==> is_digit(#[trigger] s[k]),
    ensures
        digits_end(s, from) == digits_end(s, i),
        i <= digits_end(s, from) <= s.len(),
    decreases i - from,
{
    if from < i {
        lemma_digits_run(s, from + 1, i);
    } else {
        lemma_digits_end_bounds(s, i);
    }
}

/// The digits end at or after their start and within the line, at a
/// character that is no digit, with only digits before it.
pub proof fn lemma_digits_end_bounds(s: Seq<char>, at: int)
    requires
        0 <= at <= s.len(),
    ensures
        at <= digits_end(s, at) <= s.len(),
        digits_end(s, at) < s.len() ==> !is_digit(s[digits_end(s, at)]),
        forall|k: int| at <= k < digits_end(s, at) ==> is_digit(#[trigger] s[k]),
    decreases s.len() - at,
{
    if at < s.len() && is_digit(s[at]) {
        lemma_digits_end_bounds(s, at + 1);
    }
}

/// More digits write no smaller a number.
pub proof fn lemma_decimal_grows(s: Seq<char>, from: int, i: int, j: int)
    requires
        0 <= from <= i <= j <= s.len(),
        forall|k: int| from <= k < j ==> is_digit(#[trigger] s[k]),
    ensures
        0 <= decimal(s, from, i) <= decimal(s, from, j),
    decreases j - i,
{
    lemma_decimal_nonnegative(s, from, i);
    if i < j {
        lemma_decimal_grows(s, from, i, j - 1);
        assert(is_digit(s[j - 1]));
    }
}

proof fn lemma_decimal_nonnegative(s: Seq<char>, from: int, to: int)
    requires
        0 <= from <= to <= s.len(),
        forall|k: int| from <= k < to ==> is_digit(#[trigger] s[k]),
    ensures
        0 <= decimal(s, from, to),
    decreases to - from,
{
    if from < to {
        lemma_decimal_nonnegative(s, from, to - 1);
        assert(is_digit(s[to - 1]));
    }
}

/// The characters of `text`, one by one.
pub fn chars_of(text: &str) -> (chars: Vec<char>)
    ensures
        chars@ == text@,
{
    let mut chars: Vec<char> = Vec::new();
    for c in it: text.chars()
        invariant
            chars@ == it.seq().take(it.index() as int),
    {
        chars.push(c);
    }
    chars
}

/// Reads a sixteen-bit number at position `at`; see [`spec_int16`].
pub fn read_int16(s: &[char], at: usize) -> (found: Option<(i16, usize)>)
    ensures
        match found {
            Some((value, end)) => spec_int16(s@, at as int) == Some((value, end as int)) && at
                < end <= s@.len(),
            None => spec_int16(s@, at as int) is None,
        },
{
    if at >= s.len() {
        return None;
    }
    let negative = at < s.len() && s[at] == '-';
    let signed = negative || (at < s.len() && s[at] == '+');
    let start: usize = if signed { at + 1 } else { at };
    let mut i: usize = start;
    let mut magnitude: i32 = 0;
    while i < s.len() && '0' <= s[i] && s[i] <= '9'
        invariant
            at <= start <= i <= s@.len(),
            negative == (at < s@.len() && s@[at as int] == '-'),
            signed == (negative || (at < s@.len() && s@[at as int] == '+')),
            start == (if signed { at + 1 } else { at as int }),
            forall|k: int| start <= k < i ==> is_digit(#[trigger] s@[k]),
            magnitude == decimal(s@, start as int, i as int),
            0 <= magnitude <= 32768,
        decreases s@.len() - i,
    {
        let digit: i32 = (s[i] as u32 - 48) as i32;
        assert(digit == digit_of(s@[i as int]));
        magnitude = magnitude * 10 + digit;
        i = i + 1;
        assert(magnitude == decimal(s@, start as int, i as int));
        if magnitude > 32768 {
            proof {
                lemma_digits_run(s@, start as int, i as int);
                lemma_digits_end_bounds(s@, start as int);
                lemma_decimal_grows(s@, start as int, i as int, digits_end(s@, start as int));
            }
            return None;
        }
    }
    proof {
        lemma_digits_run(s@, start as int, i as int);
    }
    if i == start {
        return None;
    }
    if negative {
        Some(((-magnitude) as i16, i))
    } else if magnitude <= 32767 {
        Some((magnitude as i16, i))
    } else {
        None
    }
}

/// Reads a sixteen-bit number and the character `c` behind it; see
/// [`spec_int16_then`].
pub fn read_int16_then(s: &[char], at: usize, c: char) -> (found: Option<(i16, usize)>)
    ensures
        match found {
            Some((value, end)) => spec_int16_then(s@, at as int, c) == Some((value, end as int))
                && at + 1 < end <= s@.len(),
            None => spec_int16_then(s@, at as int, c) is None,
        },
{
    match read_int16(s, at) {
        Some((value, end)) => {
            if end < s.len() && s[end] == c {
                Some((value, end + 1))
            } else {
                None
            }
        },
        None => None,
    }
}

/// Finds the first `c` at or after position `at`; see [`spec_find`].
pub fn find(s: &[char], at: usize, c: char) -> (found: Option<usize>)
    ensures
        match found {
            Some(i) => spec_find(s@, at as int, c) == Some(i as int) && at <= i < s@.len(),
            None => spec_find(s@, at as int, c) is None,
        },
{
    if at >= s.len() {
        return None;
    }
    let mut i: usize = at;
    while i < s.len() && s[i] != c
        invariant
            at <= i <= s@.len(),
            spec_find(s@, at as int, c) == spec_find(s@, i as int, c),
        decreases s@.len() - i,
    {
        i = i + 1;
    }
    if i < s.len() {
        Some(i)
    } else {
        None
    }
}

/// Whether the characters of `word` stand in `s` from position `at` on.
pub fn starts(s: &[char], at: usize, word: &[char]) -> (yes: bool)
    ensures
        yes == spec_starts(s@, at as int, word@),
        yes ==> at + word@.len() <= s@.len() <= usize::MAX,
{
    if at > s.len() || word.len() > s.len() - at {
        return false;
    }
    let mut i: usize = 0;
    while i < word.len()
        invariant
            i <= word@.len(),
            at + word@.len() <= s@.len() <= usize::MAX,
            s@.subrange(at as int, at + i) == word@.take(i as int),
        decreases word@.len() - i,
    {
        if s[at + i] != word[i] {
            assert(s@.subrange(at as int, at + word@.len())[i as int] != word@[i as int]);
            return false;
        }
        assert(s@.subrange(at as int, at + i + 1) =~= s@.subrange(at as int, at + i).push(
            s@[at + i],
        ));
        assert(word@.take(i + 1) =~= word@.take(i as int).push(word@[i as int]));
        i = i + 1;
    }
    assert(word@.take(i as int) =~= word@);
    true
}

} // verus!
