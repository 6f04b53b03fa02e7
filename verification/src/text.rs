//! Characters, decimal numerals and the splitting of text.

use vstd::prelude::*;

verus! {

/// The character that writes a decimal digit.
pub open spec fn digit_char(digit: int) -> char {
    if digit == 0 {
        '0'
    } else if digit == 1 {
        '1'
    } else if digit == 2 {
        '2'
    } else if digit == 3 {
        '3'
    } else if digit == 4 {
        '4'
    } else if digit == 5 {
        '5'
    } else if digit == 6 {
        '6'
    } else if digit == 7 {
        '7'
    } else if digit == 8 {
        '8'
    } else {
        '9'
    }
}

/// The decimal numeral of a natural number, without leading zeros.
pub open spec fn decimal(number: nat) -> Seq<char>
    decreases number,
{
    if number < 10 {
        seq![digit_char(number as int)]
    } else {
        decimal(number / 10).push(digit_char((number % 10) as int))
    }
}

/// The decimal numeral of an integer: a minus sign before a negative one.
pub open spec fn signed_decimal(number: int) -> Seq<char> {
    if number < 0 {
        seq!['-'] + decimal((-number) as nat)
    } else {
        decimal(number as nat)
    }
}

/// The character is one of `0` to `9`.
pub open spec fn is_digit(c: char) -> bool {
    48 <= c as u32 <= 57
}

/// The digit that a character of `0` to `9` writes.
pub open spec fn digit_value(c: char) -> int {
    c as u32 - 48
}

/// Every character is a decimal digit.
pub open spec fn all_digits(text: Seq<char>) -> bool {
    forall|i: int| 0 <= i < text.len() ==> is_digit(#[trigger] text[i])
}

/// The number that a run of decimal digits writes; zero for the empty run.
pub open spec fn digits_value(text: Seq<char>) -> nat
    decreases text.len(),
{
    if text.len() == 0 {
        0
    } else {
        (digits_value(text.drop_last()) * 10 + digit_value(text.last())) as nat
    }
}

/// The text begins with a plus or a minus sign.
pub open spec fn has_sign(text: Seq<char>) -> bool {
    text.len() > 0 && (text[0] == '+' || text[0] == '-')
}

/// The integer that a decimal numeral writes: an optional sign, then one
/// digit or more and nothing else.
pub open spec fn parse_integer(text: Seq<char>) -> Option<int> {
    let digits = if has_sign(text) {
        text.skip(1)
    } else {
        text
    };
    if digits.len() == 0 || !all_digits(digits) {
        None
    } else if text[0] == '-' {
        Some(-(digits_value(digits) as int))
    } else {
        Some(digits_value(digits) as int)
    }
}

/// The 64-bit signed integer that a decimal numeral writes, where it fits.
pub open spec fn parse_i64(text: Seq<char>) -> Option<i64> {
    match parse_integer(text) {
        Some(value) => if i64::MIN <= value <= i64::MAX {
            Some(value as i64)
        } else {
            None
        },
        None => None,
    }
}

/// The pieces of a text between the occurrences of a separator. A text of
/// `n` separators has `n + 1` pieces, some of which may be empty.
pub open spec fn split(text: Seq<char>, separator: char) -> Seq<Seq<char>>
    decreases text.len(),
{
    if text.len() == 0 {
        seq![Seq::<char>::empty()]
    } else {
        let before = split(text.drop_last(), separator);
        if text.last() == separator {
            before.push(Seq::<char>::empty())
        } else {
            before.drop_last().push(before.last().push(text.last()))
        }
    }
}

/// A text has at least one piece.
pub proof fn lemma_split_nonempty(text: Seq<char>, separator: char)
    ensures
        split(text, separator).len() > 0,
    decreases text.len(),
{
    if text.len() > 0 {
        lemma_split_nonempty(text.drop_last(), separator);
    }
}

/// A run of digits writes at least what any of its prefixes writes.
pub proof fn lemma_digits_value_grows(text: Seq<char>, upto: int)
    requires
        all_digits(text),
        0 <= upto <= text.len(),
    ensures
        digits_value(text.take(upto)) <= digits_value(text),
    decreases text.len() - upto,
{
    if upto == text.len() {
        assert(text.take(upto) =~= text);
    } else {
        lemma_digits_value_grows(text, upto + 1);
        assert(text.take(upto + 1).drop_last() =~= text.take(upto));
    }
}

/// The pattern stands in the text at position `at`.
pub open spec fn occurs_at(text: Seq<char>, pattern: Seq<char>, at: int) -> bool {
    &&& 0 <= at
    &&& at + pattern.len() <= text.len()
    &&& text.subrange(at, at + pattern.len()) == pattern
}

/// The characters of a text.
pub fn chars_of(text: &str) -> (chars: Vec<char>)
    ensures
        chars@ == text@,
{
    let mut chars: Vec<char> = Vec::new();
    for c in it: text.chars()
        invariant
            it.seq() == text@,
            chars@ == text@.take(it.index() as int),
    {
        chars.push(c);
    }
    chars
}

/// The one-character text of a decimal digit.
fn digit_text(digit: u64) -> (text: &'static str)
    requires
        digit < 10,
    ensures
        text@ == seq![digit_char(digit as int)],
{
    proof {
        reveal_strlit("0");
        reveal_strlit("1");
        reveal_strlit("2");
        reveal_strlit("3");
        reveal_strlit("4");
        reveal_strlit("5");
        reveal_strlit("6");
        reveal_strlit("7");
        reveal_strlit("8");
        reveal_strlit("9");
    }
    if digit == 0 {
        "0"
    } else if digit == 1 {
        "1"
    } else if digit == 2 {
        "2"
    } else if digit == 3 {
        "3"
    } else if digit == 4 {
        "4"
    } else if digit == 5 {
        "5"
    } else if digit == 6 {
        "6"
    } else if digit == 7 {
        "7"
    } else if digit == 8 {
        "8"
    } else {
        "9"
    }
}

/// Writes a number as its decimal numeral.
pub fn decimal_string(number: u64) -> (numeral: String)
    ensures
        numeral@ == decimal(number as nat),
    decreases number,
{
    if number < 10 {
        String::from_str(digit_text(number))
    } else {
        let mut numeral = decimal_string(number / 10);
        numeral.append(digit_text(number % 10));
        numeral
    }
}

/// Writes an integer as its decimal numeral, with a minus sign before a
/// negative one.
pub fn signed_decimal_string(number: i64) -> (numeral: String)
    ensures
        numeral@ == signed_decimal(number as int),
{
    if number < 0 {
        let magnitude: u64 = (-(number as i128)) as u64;
        let mut numeral = String::from_str("-");
        proof {
            reveal_strlit("-");
        }
        numeral.append(decimal_string(magnitude).as_str());
        numeral
    } else {
        decimal_string(number as u64)
    }
}

/// Reads the decimal numeral that `chars` holds from `start` up to `end`.
#[verifier::loop_isolation(false)]
pub(crate) fn parse_i64_in(chars: &Vec<char>, start: usize, end: usize) -> (value: Option<i64>)
    requires
        start <= end <= chars.len(),
    ensures
        value == parse_i64(chars@.subrange(start as int, end as int)),
{
    let ghost text = chars@.subrange(start as int, end as int);
    if start == end {
        return None;
    }
    let negative = chars[start] == '-';
    let signed = negative || chars[start] == '+';
    let first: usize = if signed {
        start + 1
    } else {
        start
    };
    let ghost digits = if has_sign(text) {
        text.skip(1)
    } else {
        text
    };
    if first == end {
        return None;
    }
    let mut total: u128 = 0;
    let mut index: usize = first;
    while index < end
        invariant
            first <= index <= end <= chars.len(),
            digits == chars@.subrange(first as int, end as int),
            all_digits(digits.take(index - first)),
            total == digits_value(digits.take(index - first)),
            total <= 0x8000_0000_0000_0000,
        decreases end - index,
    {
        let c = chars[index];
        let ghost seen = digits.take(index - first);
        let ghost more = digits.take(index - first + 1);
        assert(more.drop_last() =~= seen);
        let code = c as u32;
        assert(digits[index - first] == c);
        if code < 48 || code > 57 {
            return None;
        }
        assert(all_digits(more));
        let value: u128 = total * 10 + ((code - 48) as u128);
        if value > 0x8000_0000_0000_0000 {
            proof {
                if all_digits(digits) {
                    lemma_digits_value_grows(digits, index - first + 1);
                }
            }
            return None;
        }
        total = value;
        index += 1;
    }
    assert(digits.take(end - first) =~= digits);
    if negative {
        Some((-(total as i128)) as i64)
    } else if total == 0x8000_0000_0000_0000 {
        None
    } else {
        Some(total as i64)
    }
}

/// Where the pieces of `chars` between the occurrences of `separator` begin
/// and end.
pub fn piece_bounds(chars: &Vec<char>, separator: char) -> (bounds: Vec<(usize, usize)>)
    ensures
        bounds.len() == split(chars@, separator).len(),
        forall|k: int|
            0 <= k < bounds.len() ==> {
                &&& (#[trigger] bounds[k]).0 <= bounds[k].1 <= chars.len()
                &&& chars@.subrange(bounds[k].0 as int, bounds[k].1 as int) == split(
                    chars@,
                    separator,
                )[k]
            },
{
    let mut bounds: Vec<(usize, usize)> = Vec::new();
    let mut start: usize = 0;
    let mut index: usize = 0;
    while index < chars.len()
        invariant
            start <= index <= chars.len(),
            bounds.len() + 1 == split(chars@.take(index as int), separator).len(),
            split(chars@.take(index as int), separator).last() == chars@.subrange(
                start as int,
                index as int,
            ),
            forall|k: int|
                0 <= k < bounds.len() ==> {
                    &&& (#[trigger] bounds[k]).0 <= bounds[k].1 <= chars.len()
                    &&& chars@.subrange(bounds[k].0 as int, bounds[k].1 as int) == split(
                        chars@.take(index as int),
                        separator,
                    )[k]
                },
        decreases chars.len() - index,
    {
        assert(chars@.take(index as int + 1).drop_last() =~= chars@.take(index as int));
        if chars[index] == separator {
            bounds.push((start, index));
            start = index + 1;
        }
        index += 1;
    }
    assert(chars@.take(chars.len() as int) =~= chars@);
    bounds.push((start, index));
    bounds
}

/// Whether the pattern stands in the text at position `at`.
pub(crate) fn matches_at(text: &Vec<char>, pattern: &Vec<char>, at: usize) -> (found: bool)
    requires
        at + pattern.len() <= text.len(),
    ensures
        found == occurs_at(text@, pattern@, at as int),
{
    let ghost window = text@.subrange(at as int, at + pattern.len());
    let mut index: usize = 0;
    while index < pattern.len()
        invariant
            index <= pattern.len(),
            at + pattern.len() <= text.len(),
            window == text@.subrange(at as int, at + pattern.len()),
            forall|k: int| 0 <= k < index ==> window[k] == pattern[k],
        decreases pattern.len() - index,
    {
        if text[at + index] != pattern[index] {
            return false;
        }
        index += 1;
    }
    assert(window =~= pattern@);
    true
}

} // verus!
