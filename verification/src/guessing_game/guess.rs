//! Reading a guess out of a line of text.
//!
//! A line holds a guess when, with the white space at both ends removed, it is
//! an optional `+` followed by one or more decimal digits whose value fits in a
//! `u32`.

use vstd::prelude::*;

verus! {

/// The two ways in which a session can go wrong.
#[derive(Clone, Copy, Debug, PartialEq, Eq, Structural)]
pub enum GameError {
    /// A line of input holds no guess. The player is asked again.
    ParseFailure,
    /// The input stream ended or could not be read. The session is over.
    InputStreamFailure,
}

/// The characters with the Unicode property `White_Space`.
pub open spec fn is_whitespace(c: char) -> bool {
    let u = c as u32;
    ||| 0x09 <= u <= 0x0D
    ||| u == 0x20
    ||| u == 0x85
    ||| u == 0xA0
    ||| u == 0x1680
    ||| 0x2000 <= u <= 0x200A
    ||| u == 0x2028
    ||| u == 0x2029
    ||| u == 0x202F
    ||| u == 0x205F
    ||| u == 0x3000
}

/// `s` without the white space at its start.
pub open spec fn trim_start(s: Seq<char>) -> Seq<char>
    decreases s.len(),
{
    if s.len() > 0 && is_whitespace(s.first()) {
        trim_start(s.drop_first())
    } else {
        s
    }
}

/// `s` without the white space at its end.
pub open spec fn trim_end(s: Seq<char>) -> Seq<char>
    decreases s.len(),
{
    if s.len() > 0 && is_whitespace(s.last()) {
        trim_end(s.drop_last())
    } else {
        s
    }
}

/// `s` without the white space at both ends.
pub open spec fn trimmed(s: Seq<char>) -> Seq<char> {
    trim_end(trim_start(s))
}

/// The decimal digits `0` to `9`.
pub open spec fn is_digit(c: char) -> bool {
    '0' <= c <= '9'
}

/// The number that a decimal digit stands for.
pub open spec fn digit_value(c: char) -> nat {
    (c as u32 - '0' as u32) as nat
}

/// Every character of `s` is a decimal digit.
pub open spec fn all_digits(s: Seq<char>) -> bool {
    forall|i: int| 0 <= i < s.len() ==> is_digit(#[trigger] s[i])
}

/// The number that a string of decimal digits stands for.
pub open spec fn decimal_value(s: Seq<char>) -> nat
    decreases s.len(),
{
    if s.len() == 0 {
        0
    } else {
        10 * decimal_value(s.drop_last()) + digit_value(s.last())
    }
}

/// `s` without the one `+` that may stand before the digits.
pub open spec fn without_sign(s: Seq<char>) -> Seq<char> {
    if s.len() > 0 && s.first() == '+' {
        s.drop_first()
    } else {
        s
    }
}

/// The unsigned number written in `s`, if `s` is an optional `+` followed by
/// one or more decimal digits and nothing else, and the number fits in a `u32`.
pub open spec fn parsed_number(s: Seq<char>) -> Option<u32> {
    let digits = without_sign(s);
    if digits.len() > 0 && all_digits(digits) && decimal_value(digits) <= u32::MAX {
        Some(decimal_value(digits) as u32)
    } else {
        None
    }
}

/// The guess that a raw line of input holds, if it holds one.
pub open spec fn parsed_guess(raw: Seq<char>) -> Option<u32> {
    parsed_number(trimmed(raw))
}

/// What reading a raw line of input for a guess gives: the guess, or
/// `ParseFailure` where the line holds none.
pub open spec fn parse_result(raw: Seq<char>) -> Result<u32, GameError> {
    match parsed_guess(raw) {
        Some(guess) => Ok(guess),
        None => Err(GameError::ParseFailure),
    }
}

/// Tells whether `c` is white space.
pub fn is_whitespace_char(c: char) -> (b: bool)
    ensures
        b == is_whitespace(c),
{
    let u: u32 = c as u32;
    (0x09 <= u && u <= 0x0D) || u == 0x20 || u == 0x85 || u == 0xA0 || u == 0x1680 || (0x2000 <= u
        && u <= 0x200A) || u == 0x2028 || u == 0x2029 || u == 0x202F || u == 0x205F || u == 0x3000
}

/// The characters of `s`, in order.
fn chars_of(s: &str) -> (v: Vec<char>)
    ensures
        v@ == s@,
{
    let mut v: Vec<char> = Vec::new();
    for c in it: s.chars()
        invariant
            v@ == it.seq().take(it.index() as int),
            it.seq() == s@,
    {
        v.push(c);
    }
    v
}

/// Dropping white space from the start of a string leaves the part from its
/// first character that is not white space.
proof fn lemma_trim_start_skips(s: Seq<char>, i: int)
    requires
        0 <= i <= s.len(),
        forall|j: int| 0 <= j < i ==> is_whitespace(#[trigger] s[j]),
    ensures
        trim_start(s) == trim_start(s.skip(i)),
    decreases i,
{
    if i > 0 {
        assert(s.drop_first().skip(i - 1) =~= s.skip(i));
        assert forall|j: int| 0 <= j < i - 1 implies is_whitespace(
            #[trigger] s.drop_first()[j],
        ) by {
            assert(s.drop_first()[j] == s[j + 1]);
        }
        lemma_trim_start_skips(s.drop_first(), i - 1);
    } else {
        assert(s.skip(0) =~= s);
    }
}

/// Dropping white space from the end of a string leaves the part up to its
/// last character that is not white space.
proof fn lemma_trim_end_takes(s: Seq<char>, i: int)
    requires
        0 <= i <= s.len(),
        forall|j: int| i <= j < s.len() ==> is_whitespace(#[trigger] s[j]),
    ensures
        trim_end(s) == trim_end(s.take(i)),
    decreases s.len() - i,
{
    if i < s.len() {
        assert(s.drop_last().take(i) =~= s.take(i));
        lemma_trim_end_takes(s.drop_last(), i);
    } else {
        assert(s.take(i) =~= s);
    }
}

/// The value of a string of digits is at least the value of each of its
/// prefixes.
proof fn lemma_decimal_value_prefix(s: Seq<char>, i: int)
    requires
        0 <= i <= s.len(),
    ensures
        decimal_value(s.take(i)) <= decimal_value(s),
    decreases s.len() - i,
{
    if i < s.len() {
        assert(s.drop_last().take(i) =~= s.take(i));
        lemma_decimal_value_prefix(s.drop_last(), i);
    } else {
        assert(s.take(i) =~= s);
    }
}

/// Finds the part of `chars` that is left when the white space at both ends
/// is dropped: it runs from the first index returned up to the second.
fn trim_bounds(chars: &Vec<char>) -> (bounds: (usize, usize))
    ensures
        bounds.0 <= bounds.1 <= chars@.len(),
        chars@.subrange(bounds.0 as int, bounds.1 as int) == trimmed(chars@),
{
    let n = chars.len();
    let mut start: usize = 0;
    while start < n && is_whitespace_char(chars[start])
        invariant
            n == chars.len(),
            start <= n,
            forall|j: int| 0 <= j < start ==> is_whitespace(#[trigger] chars@[j]),
        decreases n - start,
    {
        start += 1;
    }
    let mut end: usize = n;
    while end > start && is_whitespace_char(chars[end - 1])
        invariant
            n == chars.len(),
            start <= end <= n,
            forall|j: int| end <= j < n ==> is_whitespace(#[trigger] chars@[j]),
        decreases end,
    {
        end -= 1;
    }
    proof {
        let rest = chars@.skip(start as int);
        let text = chars@.subrange(start as int, end as int);
        lemma_trim_start_skips(chars@, start as int);
        assert(trim_start(chars@) == rest) by {
            if rest.len() > 0 {
                assert(rest.first() == chars@[start as int]);
            }
        }
        assert forall|j: int| end - start <= j < rest.len() implies is_whitespace(
            #[trigger] rest[j],
        ) by {
            assert(rest[j] == chars@[j + start]);
        }
        lemma_trim_end_takes(rest, end - start);
        assert(rest.take(end - start) =~= text);
        assert(trim_end(text) == text) by {
            if text.len() > 0 {
                assert(text.last() == chars@[end - 1]);
            }
        }
    }
    (start, end)
}

/// Reads the unsigned number written in `chars` from `start` up to `end`.
fn number_in(chars: &Vec<char>, start: usize, end: usize) -> (number: Option<u32>)
    requires
        start <= end <= chars@.len(),
    ensures
        number == parsed_number(chars@.subrange(start as int, end as int)),
{
    let ghost text = chars@.subrange(start as int, end as int);
    let mut at: usize = start;
    if at < end && chars[at] == '+' {
        at += 1;
    }
    let ghost digits = chars@.subrange(at as int, end as int);
    proof {
        if text.len() > 0 {
            assert(text.first() == chars@[start as int]);
        }
        assert(without_sign(text) =~= digits);
    }
    if at == end {
        return None;
    }
    let first: usize = at;
    let mut value: u64 = 0;
    while at < end
        invariant
            start <= first <= at <= end <= chars@.len(),
            text == chars@.subrange(start as int, end as int),
            digits == chars@.subrange(first as int, end as int),
            digits == without_sign(text),
            all_digits(digits.take(at - first)),
            value == decimal_value(digits.take(at - first)),
            value <= u32::MAX,
        decreases end - at,
    {
        let c = chars[at];
        let ghost seen = digits.take(at - first + 1);
        proof {
            assert(seen.drop_last() =~= digits.take(at - first));
            assert(seen.last() == c);
        }
        if !('0' <= c && c <= '9') {
            proof {
                assert(digits[at - first] == c);
            }
            return None;
        }
        let digit: u64 = (c as u32 - '0' as u32) as u64;
        value = value * 10 + digit;
        proof {
            assert forall|j: int| 0 <= j < seen.len() implies is_digit(#[trigger] seen[j]) by {
                if j < at - first {
                    assert(seen[j] == digits.take(at - first)[j]);
                }
            }
        }
        if value > u32::MAX as u64 {
            proof {
                lemma_decimal_value_prefix(digits, at - first + 1);
            }
            return None;
        }
        at += 1;
    }
    proof {
        assert(digits.take(at - first) =~= digits);
    }
    Some(value as u32)
}

/// Reads an unsigned decimal number: an optional `+`, then one or more digits
/// and nothing else, not even white space. `None` where `text` is not of that
/// form, or where the number does not fit in a `u32`.
pub fn parse_number(text: &str) -> (number: Option<u32>)
    ensures
        number == parsed_number(text@),
{
    let chars = chars_of(text);
    assert(chars@.subrange(0, chars@.len() as int) =~= chars@);
    number_in(&chars, 0, chars.len())
}

/// Reads the guess out of a raw line of input: the white space at both ends is
/// dropped, and what is left must be an unsigned decimal number that fits in a
/// `u32`, with or without a `+` before it. A line that is empty or blank, or
/// that holds anything else, is a `ParseFailure`.
///
/// The result depends on the characters of `raw` alone.
pub fn parse_guess(raw: &str) -> (result: Result<u32, GameError>)
    ensures
        result == parse_result(raw@),
{
    let chars = chars_of(raw);
    let (start, end) = trim_bounds(&chars);
    match number_in(&chars, start, end) {
        Some(guess) => Ok(guess),
        None => Err(GameError::ParseFailure),
    }
}

/// Reading a line for a guess is a function of the line alone, and of no
/// more of it than is left when the white space at its ends is dropped: two
/// lines that are then the same, as a line and itself are, give the same
/// result.
pub proof fn lemma_parse_depends_on_trimmed_text(first: Seq<char>, second: Seq<char>)
    requires
        trimmed(first) == trimmed(second),
    ensures
        parse_result(first) == parse_result(second),
{
}

/// A line in which something other than a decimal digit follows the optional
/// `+`, once the white space at its ends is dropped, holds no guess, and
/// neither does a line of which nothing or only the `+` is left.
pub proof fn lemma_not_a_number_is_refused(raw: Seq<char>)
    requires
        without_sign(trimmed(raw)).len() == 0 || !all_digits(without_sign(trimmed(raw))),
    ensures
        parse_result(raw) == Err::<u32, GameError>(GameError::ParseFailure),
{
}

/// What is left of a string without the white space at its start is empty or
/// starts with a character that is not white space.
proof fn lemma_trim_start_settles(s: Seq<char>)
    ensures
        trim_start(s).len() == 0 || !is_whitespace(trim_start(s).first()),
    decreases s.len(),
{
    if s.len() > 0 && is_whitespace(s.first()) {
        lemma_trim_start_settles(s.drop_first());
    }
}

/// What is left of a string without the white space at its end is empty or
/// ends with a character that is not white space.
proof fn lemma_trim_end_settles(s: Seq<char>)
    ensures
        trim_end(s).len() == 0 || !is_whitespace(trim_end(s).last()),
    decreases s.len(),
{
    if s.len() > 0 && is_whitespace(s.last()) {
        lemma_trim_end_settles(s.drop_last());
    }
}

/// Dropping white space from the end of a string that does not start with
/// white space leaves a string that does not start with it either.
proof fn lemma_trim_end_keeps_start(s: Seq<char>)
    requires
        s.len() == 0 || !is_whitespace(s.first()),
    ensures
        trim_end(s).len() == 0 || !is_whitespace(trim_end(s).first()),
    decreases s.len(),
{
    if s.len() > 0 && is_whitespace(s.last()) {
        let rest = s.drop_last();
        if rest.len() > 0 {
            assert(rest.first() == s.first());
        }
        lemma_trim_end_keeps_start(rest);
    }
}

/// Dropping the white space at the ends of a line a second time changes
/// nothing more, so a line and what is left of it hold the same guess.
pub proof fn lemma_trimming_is_idempotent(raw: Seq<char>)
    ensures
        trimmed(trimmed(raw)) == trimmed(raw),
        parse_result(trimmed(raw)) == parse_result(raw),
{
    lemma_trim_start_settles(raw);
    lemma_trim_end_keeps_start(trim_start(raw));
    lemma_trim_end_settles(trim_start(raw));
}

} // verus!
