//! Reading a guess from a line of text.
//!
//! A line is a guess when, with the white space around it taken away, it is an
//! optional `+` followed by one or more decimal digits whose value fits in a
//! `u32`. Every other line is no guess at all.

use crate::chars::chars_of;
use vstd::prelude::*;

verus! {

/// The characters that count as white space: those with the Unicode property
/// `White_Space`.
pub open spec fn is_space(c: char) -> bool {
    ||| ('\u{9}' <= c && c <= '\u{d}')
    ||| c == ' '
    ||| c == '\u{85}'
    ||| c == '\u{a0}'
    ||| c == '\u{1680}'
    ||| ('\u{2000}' <= c && c <= '\u{200a}')
    ||| c == '\u{2028}'
    ||| c == '\u{2029}'
    ||| c == '\u{202f}'
    ||| c == '\u{205f}'
    ||| c == '\u{3000}'
}

/// One of `0` to `9`.
pub open spec fn is_digit(c: char) -> bool {
    '0' <= c && c <= '9'
}

/// The number a digit stands for; 0 for any other character.
pub open spec fn digit_value(c: char) -> nat {
    if is_digit(c) {
        (c as u32 - '0' as u32) as nat
    } else {
        0
    }
}

/// `s` without the white space at its front.
pub open spec fn trim_start(s: Seq<char>) -> Seq<char>
    decreases s.len(),
{
    if s.len() > 0 && is_space(s.first()) {
        trim_start(s.drop_first())
    } else {
        s
    }
}

/// `s` without the white space at its back.
pub open spec fn trim_end(s: Seq<char>) -> Seq<char>
    decreases s.len(),
{
    if s.len() > 0 && is_space(s.last()) {
        trim_end(s.drop_last())
    } else {
        s
    }
}

/// `s` without the white space at either end.
pub open spec fn trim(s: Seq<char>) -> Seq<char> {
    trim_end(trim_start(s))
}

/// Every character of `s` is a decimal digit.
pub open spec fn all_digits(s: Seq<char>) -> bool {
    forall|i: int| 0 <= i < s.len() ==> is_digit(#[trigger] s[i])
}

/// The number that `s` writes in base ten, most significant digit first.
pub open spec fn decimal_value(s: Seq<char>) -> nat
    decreases s.len(),
{
    if s.len() == 0 {
        0
    } else {
        10 * decimal_value(s.drop_last()) + digit_value(s.last())
    }
}

/// `s` without one leading `+`, if it has one.
pub open spec fn unsigned_part(s: Seq<char>) -> Seq<char> {
    if s.len() > 0 && s.first() == '+' {
        s.drop_first()
    } else {
        s
    }
}

/// The guess that `line` holds, if it holds one.
pub open spec fn parse_spec(line: Seq<char>) -> Option<u32> {
    let digits = unsigned_part(trim(line));
    if digits.len() > 0 && all_digits(digits) && decimal_value(digits) <= u32::MAX {
        Some(decimal_value(digits) as u32)
    } else {
        None
    }
}

/// A number's leading digits never write more than the whole number.
pub proof fn lemma_prefix_value_le(s: Seq<char>, k: int)
    requires
        0 <= k <= s.len(),
    ensures
        decimal_value(s.take(k)) <= decimal_value(s),
    decreases s.len(),
{
    if k == s.len() {
        assert(s.take(k) =~= s);
    } else {
        lemma_prefix_value_le(s.drop_last(), k);
        assert(s.drop_last().take(k) =~= s.take(k));
    }
}

/// A line with nothing but white space holds no guess.
pub proof fn lemma_blank_is_no_guess(line: Seq<char>)
    requires
        trim(line).len() == 0,
    ensures
        parse_spec(line) is None,
{
}

/// A line holds no guess if, once trimmed, it has a character that is
/// neither a digit nor a `+` in first place.
pub proof fn lemma_stray_character_is_no_guess(line: Seq<char>, i: int)
    requires
        0 <= i < trim(line).len(),
        !is_digit(trim(line)[i]),
        i > 0 || trim(line)[0] != '+',
    ensures
        parse_spec(line) is None,
{
    let trimmed = trim(line);
    let digits = unsigned_part(trimmed);
    if trimmed.first() == '+' {
        assert(digits[i - 1] == trimmed[i]);
    } else {
        assert(digits[i] == trimmed[i]);
    }
}

/// A line of digits alone holds the number they write, if it fits.
pub proof fn lemma_digits_are_a_guess(line: Seq<char>)
    requires
        line.len() > 0,
        all_digits(line),
        decimal_value(line) <= u32::MAX,
    ensures
        parse_spec(line) == Some(decimal_value(line) as u32),
{
    assert(is_digit(line.first()));
    assert(is_digit(line.last()));
    assert(trim_start(line) == line);
    assert(trim_end(line) == line);
}

/// A line of digits that write more than a `u32` can hold is no guess.
pub proof fn lemma_too_large_is_no_guess(line: Seq<char>)
    requires
        all_digits(line),
        decimal_value(line) > u32::MAX,
    ensures
        parse_spec(line) is None,
{
    assert(line.len() > 0);
    assert(is_digit(line.first()));
    assert(is_digit(line.last()));
    assert(trim_start(line) == line);
    assert(trim_end(line) == line);
}

/// Tells whether `c` is white space.
pub fn is_whitespace(c: char) -> (b: bool)
    ensures
        b == is_space(c),
{
    ('\u{9}' <= c && c <= '\u{d}') || c == ' ' || c == '\u{85}' || c == '\u{a0}' || c
        == '\u{1680}' || ('\u{2000}' <= c && c <= '\u{200a}') || c == '\u{2028}' || c
        == '\u{2029}' || c == '\u{202f}' || c == '\u{205f}' || c == '\u{3000}'
}

/// Reads a guess from a line of text.
///
/// Returns the guess exactly when the line, trimmed, is an optional `+` and
/// then digits that fit a `u32`; otherwise `None`.
pub fn parse_guess(line: &str) -> (guess: Option<u32>)
    ensures
        guess == parse_spec(line@),
{
    let chars: Vec<char> = chars_of(line);
    let n: usize = chars.len();
    let mut start: usize = 0;
    assert(line@.skip(0) =~= line@);
    while start < n && is_whitespace(chars[start])
        invariant
            start <= n,
            n == line@.len(),
            chars@ == line@,
            trim_start(line@) == trim_start(line@.skip(start as int)),
        decreases n - start,
    {
        proof {
            assert(line@.skip(start as int).drop_first() =~= line@.skip(start as int + 1));
        }
        start += 1;
    }
    assert(trim_start(line@) == line@.skip(start as int));
    let mut end: usize = n;
    while end > start && is_whitespace(chars[end - 1])
        invariant
            start <= end <= n,
            n == line@.len(),
            chars@ == line@,
            trim(line@) == trim_end(line@.subrange(start as int, end as int)),
        decreases end,
    {
        proof {
            assert(line@.subrange(start as int, end as int).drop_last() =~= line@.subrange(
                start as int,
                end as int - 1,
            ));
        }
        end -= 1;
    }
    assert(trim(line@) == line@.subrange(start as int, end as int));
    if start < end && chars[start] == '+' {
        proof {
            assert(line@.subrange(start as int, end as int).drop_first() =~= line@.subrange(
                start as int + 1,
                end as int,
            ));
        }
        start += 1;
    }
    let ghost digits = line@.subrange(start as int, end as int);
    assert(digits == unsigned_part(trim(line@)));
    if start == end {
        return None;
    }
    let mut value: u32 = 0;
    let mut i: usize = start;
    while i < end
        invariant
            start <= i <= end <= n,
            n == line@.len(),
            chars@ == line@,
            digits == line@.subrange(start as int, end as int),
            digits == unsigned_part(trim(line@)),
            all_digits(digits.take(i - start)),
            decimal_value(digits.take(i - start)) == value,
        decreases end - i,
    {
        let c: char = chars[i];
        let ghost before = digits.take(i - start);
        let ghost after = digits.take(i - start + 1);
        proof {
            assert(digits[i - start] == c);
            assert(after.drop_last() =~= before);
            assert(after.last() == c);
        }
        if !('0' <= c && c <= '9') {
            assert(!is_digit(digits[i - start]));
            return None;
        }
        let d: u64 = (c as u32 - '0' as u32) as u64;
        let next: u64 = value as u64 * 10 + d;
        if next > u32::MAX as u64 {
            proof {
                assert(decimal_value(after) == next);
                lemma_prefix_value_le(digits, i - start + 1);
            }
            return None;
        }
        value = next as u32;
        i += 1;
    }
    assert(digits.take(end - start) =~= digits);
    Some(value)
}

} // verus!
