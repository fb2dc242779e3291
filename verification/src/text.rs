//! Character-level helpers for the short strings of a dump: numbers,
//! identifiers and file names.

use vstd::prelude::*;
use vstd::string::StringSliceAdditionalSpecFns;

verus! {

/// Whether two strings hold the same characters.
pub fn str_equal(left: &str, right: &str) -> (same: bool)
    ensures
        same == (left@ == right@),
{
    proof {
        vstd::utf8::encode_utf8_decode_utf8(left@);
        vstd::utf8::encode_utf8_decode_utf8(right@);
    }
    crate::markup::bytes_equal(left.as_bytes(), right.as_bytes())
}

/// The characters of a string, in order.
pub fn chars_of(s: &str) -> (chars: Vec<char>)
    ensures
        chars@ == s@,
{
    let mut chars: Vec<char> = Vec::new();
    for c in it: s.chars()
        invariant
            chars@ == it.seq().take(it.index() as int),
            it.seq() == s@,
    {
        chars.push(c);
        assert(it.seq().take(it.index() + 1) =~= it.seq().take(it.index() as int).push(c));
    }
    assert(chars@ =~= s@);
    chars
}

/// Whether `c` is one of the ten decimal digits.
pub open spec fn is_digit(c: char) -> bool {
    '0' <= c && c <= '9'
}

/// The number that a decimal digit stands for.
pub open spec fn digit_value(c: char) -> nat {
    (c as u32 - '0' as u32) as nat
}

/// Whether every character of `s` is a decimal digit.
pub open spec fn all_digits(s: Seq<char>) -> bool {
    forall|i: int| 0 <= i < s.len() ==> is_digit(#[trigger] s[i])
}

/// The number that a sequence of decimal digits writes, most significant
/// digit first.
pub open spec fn decimal_value(digits: Seq<char>) -> nat
    decreases digits.len(),
{
    if digits.len() == 0 {
        0
    } else {
        decimal_value(digits.drop_last()) * 10 + digit_value(digits.last())
    }
}

/// The digits of a number text: what follows one optional leading `+`.
pub open spec fn unsigned_digits(s: Seq<char>) -> Seq<char> {
    if s.len() > 0 && s[0] == '+' {
        s.skip(1)
    } else {
        s
    }
}

/// The unsigned 64-bit number that `s` writes in decimal: an optional `+`,
/// then one or more digits and nothing else, with a value that fits. `None`
/// for every other text.
pub open spec fn parsed_u64(s: Seq<char>) -> Option<u64> {
    let digits = unsigned_digits(s);
    if digits.len() > 0 && all_digits(digits) && decimal_value(digits) <= u64::MAX {
        Some(decimal_value(digits) as u64)
    } else {
        None
    }
}

/// A prefix of a digit sequence writes a number that is no larger.
pub proof fn lemma_decimal_value_prefix(digits: Seq<char>, k: int)
    requires
        0 <= k <= digits.len(),
    ensures
        decimal_value(digits.take(k)) <= decimal_value(digits),
    decreases digits.len(),
{
    if k == digits.len() {
        assert(digits.take(k) =~= digits);
    } else {
        lemma_decimal_value_prefix(digits.drop_last(), k);
        assert(digits.drop_last().take(k) =~= digits.take(k));
    }
}

/// Reads an unsigned 64-bit number written in decimal.
pub fn parse_u64(s: &str) -> (number: Option<u64>)
    ensures
        number == parsed_u64(s@),
{
    let chars = chars_of(s);
    let start: usize = if chars.len() > 0 && chars[0] == '+' { 1 } else { 0 };
    let ghost digits = unsigned_digits(s@);
    assert(digits =~= chars@.skip(start as int));
    if start == chars.len() {
        return None;
    }
    let mut value: u64 = 0;
    let mut i: usize = start;
    while i < chars.len()
        invariant
            start <= i <= chars.len(),
            digits == chars@.skip(start as int),
            digits == unsigned_digits(s@),
            all_digits(digits.take(i - start)),
            value == decimal_value(digits.take(i - start)),
        decreases chars.len() - i,
    {
        let c = chars[i];
        let ghost upto = digits.take(i - start + 1);
        assert(upto.drop_last() =~= digits.take(i - start));
        assert(upto.last() == c);
        if c < '0' || c > '9' {
            assert(!is_digit(digits[i - start]));
            return None;
        }
        let d: u64 = (c as u32 - '0' as u32) as u64;
        assert(digit_value(c) == d);
        assert(decimal_value(upto) == value * 10 + d);
        if value > (u64::MAX - d) / 10 {
            proof {
                assert(digits.take(i - start + 1) == upto);
                lemma_decimal_value_prefix(digits, i - start + 1);
            }
            return None;
        }
        value = value * 10 + d;
        i += 1;
        assert forall|k: int| 0 <= k < upto.len() implies is_digit(#[trigger] upto[k]) by {
            if k < upto.len() - 1 {
                assert(upto[k] == digits.take(i - 1 - start)[k]);
            }
        }
    }
    assert(digits.take(i - start) =~= digits);
    Some(value)
}

/// Whether `c` has the Unicode property White_Space, as `char::is_whitespace`
/// tells it.
pub uninterp spec fn is_whitespace(c: char) -> bool;

/// Calls `char::is_whitespace`; the result is the named property of `c`.
#[verifier::external_body]
pub(crate) fn char_is_whitespace(c: char) -> (space: bool)
    ensures
        space == is_whitespace(c),
{
    c.is_whitespace()
}

/// `s` without its leading whitespace.
pub open spec fn trim_start(s: Seq<char>) -> Seq<char>
    decreases s.len(),
{
    if s.len() > 0 && is_whitespace(s[0]) {
        trim_start(s.skip(1))
    } else {
        s
    }
}

/// `s` without its trailing whitespace.
pub open spec fn trim_end(s: Seq<char>) -> Seq<char>
    decreases s.len(),
{
    if s.len() > 0 && is_whitespace(s.last()) {
        trim_end(s.drop_last())
    } else {
        s
    }
}

/// `s` without the whitespace that surrounds it.
pub open spec fn trimmed(s: Seq<char>) -> Seq<char> {
    trim_end(trim_start(s))
}

/// Removes the whitespace that surrounds a string.
pub fn trim(s: &str) -> (result: String)
    ensures
        result@ == trimmed(s@),
{
    let chars = chars_of(s);
    let mut start: usize = 0;
    assert(s@.skip(0) =~= s@);
    while start < chars.len() && char_is_whitespace(chars[start])
        invariant
            start <= chars.len(),
            chars@ == s@,
            trim_start(s@) == trim_start(s@.skip(start as int)),
        decreases chars.len() - start,
    {
        assert(s@.skip(start as int).skip(1) =~= s@.skip(start + 1));
        start += 1;
    }
    assert(trim_start(s@) == s@.skip(start as int));
    let mut end: usize = chars.len();
    while end > start && char_is_whitespace(chars[end - 1])
        invariant
            start <= end <= chars.len(),
            chars@ == s@,
            trim_end(s@.skip(start as int)) == trim_end(s@.subrange(start as int, end as int)),
        decreases end,
    {
        assert(s@.subrange(start as int, end as int).drop_last() =~= s@.subrange(
            start as int,
            end - 1,
        ));
        end -= 1;
    }
    proof {
        assert(s@.skip(start as int) =~= s@.subrange(start as int, s@.len() as int));
    }
    String::from_str(s.substring_char(start, end))
}

/// The character that writes a decimal digit.
pub open spec fn digit_char(digit: nat) -> char {
    if digit == 0 {
        '0'
    } else if digit == 1 {
        '1'
    } else if digit == 2 {
        '2'
    } else if digit == 3 {
        '3'
    } else if digit == 4 {
        '4'
    } else if digit == 5 {
        '5'
    } else if digit == 6 {
        '6'
    } else if digit == 7 {
        '7'
    } else if digit == 8 {
        '8'
    } else {
        '9'
    }
}

/// A number written in decimal, without leading zeros.
pub open spec fn decimal_text(number: nat) -> Seq<char>
    decreases number,
{
    if number < 10 {
        seq![digit_char(number)]
    } else {
        decimal_text(number / 10).push(digit_char(number % 10))
    }
}

fn digit_str(digit: u64) -> (text: &'static str)
    requires
        digit < 10,
    ensures
        text@ == seq![digit_char(digit as nat)],
{
    proof {
        reveal_strlit("0");
        reveal_strlit("1");
        reveal_strlit("2");
        reveal_strlit("3");
        reveal_strlit("4");
        reveal_strlit("5");
        reveal_strlit("6");
        reveal_strlit("7");
        reveal_strlit("8");
        reveal_strlit("9");
    }
    let text = if digit == 0 {
        "0"
    } else if digit == 1 {
        "1"
    } else if digit == 2 {
        "2"
    } else if digit == 3 {
        "3"
    } else if digit == 4 {
        "4"
    } else if digit == 5 {
        "5"
    } else if digit == 6 {
        "6"
    } else if digit == 7 {
        "7"
    } else if digit == 8 {
        "8"
    } else {
        "9"
    };
    assert(text@ =~= seq![digit_char(digit as nat)]);
    text
}

/// Writes a number in decimal.
pub fn decimal_string(number: u64) -> (text: String)
    ensures
        text@ == decimal_text(number as nat),
    decreases number,
{
    if number < 10 {
        String::from_str(digit_str(number))
    } else {
        let mut text = decimal_string(number / 10);
        text.append(digit_str(number % 10));
        assert(text@ =~= decimal_text(number as nat));
        text
    }
}

/// Whether `s` begins with `pattern`.
pub open spec fn starts_with(s: Seq<char>, pattern: Seq<char>) -> bool {
    pattern.len() <= s.len() && s.take(pattern.len() as int) == pattern
}

/// `s` with every occurrence of `pattern` replaced by `replacement`; the
/// occurrences are found from the left and do not overlap. An empty pattern
/// occurs nowhere.
pub open spec fn replace_all(s: Seq<char>, pattern: Seq<char>, replacement: Seq<char>) -> Seq<char>
    decreases s.len(),
{
    if s.len() == 0 || pattern.len() == 0 {
        s
    } else if starts_with(s, pattern) {
        replacement + replace_all(s.skip(pattern.len() as int), pattern, replacement)
    } else {
        s.take(1) + replace_all(s.skip(1), pattern, replacement)
    }
}

fn matches_at(chars: &Vec<char>, pattern: &Vec<char>, at: usize) -> (found: bool)
    requires
        at <= chars.len(),
    ensures
        found == starts_with(chars@.skip(at as int), pattern@),
{
    if pattern.len() > chars.len() - at {
        return false;
    }
    let mut k: usize = 0;
    while k < pattern.len()
        invariant
            at <= chars.len(),
            pattern.len() <= chars.len() - at,
            k <= pattern.len(),
            forall|j: int| 0 <= j < k ==> chars@[at + j] == pattern@[j],
        decreases pattern.len() - k,
    {
        if chars[at + k] != pattern[k] {
            assert(chars@.skip(at as int).take(pattern.len() as int)[k as int] != pattern@[k as int]);
            return false;
        }
        k += 1;
    }
    assert(chars@.skip(at as int).take(pattern.len() as int) =~= pattern@);
    true
}

/// Replaces every occurrence of `pattern` in `s` by `replacement`.
pub fn replace(s: &str, pattern: &str, replacement: &str) -> (result: String)
    ensures
        result@ == replace_all(s@, pattern@, replacement@),
{
    let chars = chars_of(s);
    let wanted = chars_of(pattern);
    if wanted.len() == 0 {
        return String::from_str(s);
    }
    let mut result = String::new();
    let mut i: usize = 0;
    assert(s@.skip(0) =~= s@);
    while i < chars.len()
        invariant
            i <= chars.len(),
            chars@ == s@,
            wanted@ == pattern@,
            wanted.len() > 0,
            result@ + replace_all(s@.skip(i as int), pattern@, replacement@) == replace_all(
                s@,
                pattern@,
                replacement@,
            ),
        decreases chars.len() - i,
    {
        let ghost rest = s@.skip(i as int);
        if matches_at(&chars, &wanted, i) {
            assert(rest.skip(wanted.len() as int) =~= s@.skip(i + wanted.len()));
            assert((result@ + replacement@) + replace_all(
                s@.skip(i + wanted.len()),
                pattern@,
                replacement@,
            ) =~= result@ + replace_all(rest, pattern@, replacement@));
            result.append(replacement);
            i += wanted.len();
        } else {
            assert(rest.skip(1) =~= s@.skip(i + 1));
            assert(rest.take(1) =~= s@.subrange(i as int, i + 1));
            assert((result@ + rest.take(1)) + replace_all(s@.skip(i + 1), pattern@, replacement@)
                =~= result@ + replace_all(rest, pattern@, replacement@));
            result.append(s.substring_char(i, i + 1));
            i += 1;
        }
    }
    assert(result@ + Seq::<char>::empty() =~= result@);
    result
}

} // verus!
