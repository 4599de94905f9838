//! The lexical rules: which texts are identifiers and numerals, and where
//! the longest one that starts at a given place ends.

use vstd::prelude::*;

verus! {

/// `a`–`z` or `A`–`Z`.
pub open spec fn is_letter(c: char) -> bool {
    ('a' <= c && c <= 'z') || ('A' <= c && c <= 'Z')
}

/// `0`–`9`.
pub open spec fn is_digit(c: char) -> bool {
    '0' <= c && c <= '9'
}

/// A character that may follow the first letter of an identifier.
pub open spec fn is_word_char(c: char) -> bool {
    is_letter(c) || is_digit(c) || c == '_'
}

/// Every character of `s` is a digit.
pub open spec fn all_digits(s: Seq<char>) -> bool {
    forall|i: int| 0 <= i < s.len() ==> is_digit(#[trigger] s[i])
}

/// An identifier: a letter, then letters, digits and underscores.
pub open spec fn is_identifier(s: Seq<char>) -> bool {
    &&& s.len() >= 1
    &&& is_letter(s[0])
    &&& forall|i: int| 1 <= i < s.len() ==> is_word_char(#[trigger] s[i])
}

/// The integer part of a numeral: the digit `0` alone, or digits that do
/// not begin with `0`.
pub open spec fn is_integer_part(s: Seq<char>) -> bool {
    &&& s.len() >= 1
    &&& all_digits(s)
    &&& s.len() > 1 ==> s[0] != '0'
}

/// A numeral without its sign: an integer part, and then either nothing or
/// a point and one digit or more.
pub open spec fn is_unsigned_numeral(s: Seq<char>) -> bool {
    exists|point: int|
        {
            &&& 1 <= point <= s.len()
            &&& is_integer_part(#[trigger] s.take(point))
            &&& point < s.len() ==> {
                &&& s[point] == '.'
                &&& point + 1 < s.len()
                &&& all_digits(s.skip(point + 1))
            }
        }
}

/// A numeral: an unsigned numeral, or `-` before one.
pub open spec fn is_numeral(s: Seq<char>) -> bool {
    ||| is_unsigned_numeral(s)
    ||| s.len() >= 1 && s[0] == '-' && is_unsigned_numeral(s.skip(1))
}

/// Where the longest run of digits that starts at `pos` ends.
pub open spec fn digits_end(s: Seq<char>, pos: int) -> int
    decreases s.len() - pos,
{
    if 0 <= pos < s.len() && is_digit(s[pos]) {
        digits_end(s, pos + 1)
    } else {
        pos
    }
}

/// Where the longest run of letters, digits and underscores that starts at
/// `pos` ends.
pub open spec fn word_end(s: Seq<char>, pos: int) -> int
    decreases s.len() - pos,
{
    if 0 <= pos < s.len() && is_word_char(s[pos]) {
        word_end(s, pos + 1)
    } else {
        pos
    }
}

/// Where the longest identifier that starts at `pos` ends, if one starts
/// there.
pub open spec fn identifier_end(s: Seq<char>, pos: int) -> Option<int> {
    if 0 <= pos < s.len() && is_letter(s[pos]) {
        Some(word_end(s, pos + 1))
    } else {
        None
    }
}

/// Where the integer part that starts at `pos` ends, if one starts there:
/// a `0` ends at once, any other digit takes the digits after it along.
pub open spec fn integer_end(s: Seq<char>, pos: int) -> Option<int> {
    if 0 <= pos < s.len() && is_digit(s[pos]) {
        if s[pos] == '0' {
            Some(pos + 1)
        } else {
            Some(digits_end(s, pos + 1))
        }
    } else {
        None
    }
}

/// Where the numeral ends whose integer part ends at `pos`: behind the
/// fraction, if a point and a digit follow.
pub open spec fn fraction_end(s: Seq<char>, pos: int) -> int {
    if 0 <= pos && pos + 1 < s.len() && s[pos] == '.' && is_digit(s[pos + 1]) {
        digits_end(s, pos + 2)
    } else {
        pos
    }
}

/// Where the longest numeral that starts at `pos` ends, if one starts
/// there.
pub open spec fn numeral_end(s: Seq<char>, pos: int) -> Option<int> {
    let start = if 0 <= pos < s.len() && s[pos] == '-' {
        pos + 1
    } else {
        pos
    };
    match integer_end(s, start) {
        Some(point) => Some(fraction_end(s, point)),
        None => None,
    }
}

/// The run of digits from `pos` ends at the first place that holds no
/// digit.
pub proof fn lemma_digits_end(s: Seq<char>, pos: int)
    requires
        0 <= pos <= s.len(),
    ensures
        pos <= digits_end(s, pos) <= s.len(),
        forall|i: int| pos <= i < digits_end(s, pos) ==> is_digit(#[trigger] s[i]),
        digits_end(s, pos) < s.len() ==> !is_digit(s[digits_end(s, pos)]),
    decreases s.len() - pos,
{
    if pos < s.len() && is_digit(s[pos]) {
        lemma_digits_end(s, pos + 1);
    }
}

/// The run of word characters from `pos` ends at the first place that
/// holds none.
pub proof fn lemma_word_end(s: Seq<char>, pos: int)
    requires
        0 <= pos <= s.len(),
    ensures
        pos <= word_end(s, pos) <= s.len(),
        forall|i: int| pos <= i < word_end(s, pos) ==> is_word_char(#[trigger] s[i]),
        word_end(s, pos) < s.len() ==> !is_word_char(s[word_end(s, pos)]),
    decreases s.len() - pos,
{
    if pos < s.len() && is_word_char(s[pos]) {
        lemma_word_end(s, pos + 1);
    }
}

/// A text is an identifier exactly when the longest identifier at its
/// start is the whole of it.
pub proof fn lemma_identifier_is_whole_match(s: Seq<char>)
    ensures
        is_identifier(s) <==> identifier_end(s, 0) == Some(s.len() as int),
{
    if s.len() >= 1 {
        lemma_word_end(s, 1);
    }
}

/// A text is a numeral exactly when the longest numeral at its start is
/// the whole of it.
pub proof fn lemma_numeral_is_whole_match(s: Seq<char>)
    ensures
        is_numeral(s) <==> numeral_end(s, 0) == Some(s.len() as int),
{
    if s.len() >= 1 && s[0] == '-' {
        let rest = s.skip(1);
        lemma_unsigned_is_whole_match(rest);
        lemma_unsigned_shifted(s, 1);
        assert(!is_unsigned_numeral(s)) by {
            if is_unsigned_numeral(s) {
                let point = choose|point: int|
                    {
                        &&& 1 <= point <= s.len()
                        &&& is_integer_part(#[trigger] s.take(point))
                    };
                assert(s.take(point)[0] == s[0]);
            }
        }
    } else {
        lemma_unsigned_is_whole_match(s);
        lemma_unsigned_shifted(s, 0);
    }
}

/// Where an unsigned numeral ends, counted in the text that it starts.
pub open spec fn unsigned_end(s: Seq<char>) -> Option<int> {
    match integer_end(s, 0) {
        Some(point) => Some(fraction_end(s, point)),
        None => None,
    }
}

/// The run of digits in a text without its first `shift` characters ends
/// where it ends in the whole text.
proof fn lemma_digits_end_shifted(s: Seq<char>, shift: int, pos: int)
    requires
        0 <= shift <= s.len(),
        0 <= pos <= s.len() - shift,
    ensures
        digits_end(s.skip(shift), pos) + shift == digits_end(s, pos + shift),
    decreases s.len() - shift - pos,
{
    let rest = s.skip(shift);
    if pos < rest.len() {
        assert(rest[pos] == s[pos + shift]);
        if is_digit(rest[pos]) {
            lemma_digits_end_shifted(s, shift, pos + 1);
        }
    }
}

/// The unsigned numeral at the start of a text without its first `shift`
/// characters is the one at `shift` in the whole text.
proof fn lemma_unsigned_shifted(s: Seq<char>, shift: int)
    requires
        0 <= shift <= s.len(),
    ensures
        match unsigned_end(s.skip(shift)) {
            Some(end) => integer_end(s, shift) is Some && fraction_end(
                s,
                integer_end(s, shift)->0,
            ) == end + shift,
            None => integer_end(s, shift) is None,
        },
{
    let rest = s.skip(shift);
    if 0 < rest.len() {
        assert(rest[0] == s[shift]);
        lemma_digits_end_shifted(s, shift, 1);
        lemma_digits_end(rest, 1);
        let point = integer_end(rest, 0);
        if point is Some {
            let p = point->0;
            if p + 1 < rest.len() {
                assert(rest[p] == s[p + shift]);
                assert(rest[p + 1] == s[p + 1 + shift]);
                lemma_digits_end_shifted(s, shift, p + 2);
            }
        }
    }
}

/// A text is an unsigned numeral exactly when the longest one at its start
/// is the whole of it.
proof fn lemma_unsigned_is_whole_match(s: Seq<char>)
    ensures
        is_unsigned_numeral(s) <==> unsigned_end(s) == Some(s.len() as int),
{
    let len = s.len() as int;
    if is_unsigned_numeral(s) {
        let point = choose|point: int|
            {
                &&& 1 <= point <= s.len()
                &&& is_integer_part(#[trigger] s.take(point))
                &&& point < s.len() ==> {
                    &&& s[point] == '.'
                    &&& point + 1 < s.len()
                    &&& all_digits(s.skip(point + 1))
                }
            };
        let whole = s.take(point);
        assert(whole[0] == s[0]);
        assert(is_digit(whole[0]));
        lemma_digits_end(s, 1);
        assert(integer_end(s, 0) == Some(point)) by {
            if s[0] == '0' {
                if point > 1 {
                    assert(whole.len() > 1);
                }
            } else {
                let end = digits_end(s, 1);
                if end < point {
                    assert(whole[end] == s[end]);
                    assert(is_digit(whole[end]));
                }
                if end > point {
                    assert(is_digit(s[point]));
                }
            }
        }
        if point < len {
            let tail = s.skip(point + 1);
            assert(tail[0] == s[point + 1]);
            assert(is_digit(tail[0]));
            lemma_digits_end(s, point + 2);
            let end = digits_end(s, point + 2);
            if end < len {
                assert(tail[end - point - 1] == s[end]);
                assert(is_digit(tail[end - point - 1]));
            }
        }
    }
    if unsigned_end(s) == Some(len) {
        let point = integer_end(s, 0)->0;
        lemma_digits_end(s, 1);
        let whole = s.take(point);
        assert forall|i: int| 0 <= i < whole.len() implies is_digit(#[trigger] whole[i]) by {
            assert(whole[i] == s[i]);
        }
        assert(whole[0] == s[0]);
        assert(is_integer_part(whole));
        if point < len {
            lemma_digits_end(s, point + 2);
            let tail = s.skip(point + 1);
            assert forall|i: int| 0 <= i < tail.len() implies is_digit(#[trigger] tail[i]) by {
                assert(tail[i] == s[i + point + 1]);
            }
        }
    }
}

pub fn letter(c: char) -> (r: bool)
    ensures
        r == is_letter(c),
{
    ('a' <= c && c <= 'z') || ('A' <= c && c <= 'Z')
}

pub fn digit(c: char) -> (r: bool)
    ensures
        r == is_digit(c),
{
    '0' <= c && c <= '9'
}

pub fn word_char(c: char) -> (r: bool)
    ensures
        r == is_word_char(c),
{
    letter(c) || digit(c) || c == '_'
}

/// Skips the digits at `pos`.
pub fn skip_digits(input: &[char], pos: usize) -> (end: usize)
    requires
        pos <= input.len(),
    ensures
        end == digits_end(input@, pos as int),
        pos <= end <= input.len(),
{
    let mut end = pos;
    while end < input.len() && digit(input[end])
        invariant
            pos <= end <= input.len(),
            digits_end(input@, pos as int) == digits_end(input@, end as int),
        decreases input.len() - end,
    {
        end = end + 1;
    }
    end
}

/// Skips the letters, digits and underscores at `pos`.
pub fn skip_word(input: &[char], pos: usize) -> (end: usize)
    requires
        pos <= input.len(),
    ensures
        end == word_end(input@, pos as int),
        pos <= end <= input.len(),
{
    let mut end = pos;
    while end < input.len() && word_char(input[end])
        invariant
            pos <= end <= input.len(),
            word_end(input@, pos as int) == word_end(input@, end as int),
        decreases input.len() - end,
    {
        end = end + 1;
    }
    end
}

/// Finds where the identifier at `pos` ends, if one starts there.
pub fn scan_identifier(input: &[char], pos: usize) -> (r: Option<usize>)
    requires
        pos <= input.len(),
    ensures
        r is Some == identifier_end(input@, pos as int) is Some,
        r is Some ==> r->0 == identifier_end(input@, pos as int)->0 && pos < r->0 <= input.len(),
{
    if pos < input.len() && letter(input[pos]) {
        Some(skip_word(input, pos + 1))
    } else {
        None
    }
}

} // verus!
