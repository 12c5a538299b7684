//! Reading a number from a line of text.

use vstd::prelude::*;

verus! {

/// Whether `c` is white space, as Unicode defines it.
pub open spec fn is_white_space(c: char) -> bool {
    let v = c as u32;
    ||| 0x09 <= v <= 0x0D
    ||| v == 0x20
    ||| v == 0x85
    ||| v == 0xA0
    ||| v == 0x1680
    ||| 0x2000 <= v <= 0x200A
    ||| v == 0x2028
    ||| v == 0x2029
    ||| v == 0x202F
    ||| v == 0x205F
    ||| v == 0x3000
}

/// `text` without the white space it starts with.
pub open spec fn trim_start_spec(text: Seq<char>) -> Seq<char>
    decreases text.len(),
{
    if text.len() > 0 && is_white_space(text[0]) {
        trim_start_spec(text.drop_first())
    } else {
        text
    }
}

/// `text` without the white space it ends with.
pub open spec fn trim_end_spec(text: Seq<char>) -> Seq<char>
    decreases text.len(),
{
    if text.len() > 0 && is_white_space(text.last()) {
        trim_end_spec(text.drop_last())
    } else {
        text
    }
}

/// `text` without the white space it starts and ends with.
pub open spec fn trim_spec(text: Seq<char>) -> Seq<char> {
    trim_end_spec(trim_start_spec(text))
}

/// Whether `c` is a decimal digit.
pub open spec fn is_digit(c: char) -> bool {
    '0' <= c <= '9'
}

/// Whether `text` holds decimal digits only.
pub open spec fn all_digits(text: Seq<char>) -> bool {
    forall|i: int| 0 <= i < text.len() ==> is_digit(#[trigger] text[i])
}

/// The value of the decimal digit `c`.
pub open spec fn digit_value(c: char) -> nat {
    if is_digit(c) {
        (c as u32 - '0' as u32) as nat
    } else {
        0
    }
}

/// The number that the decimal digits `digits` write.
pub open spec fn decimal_value(digits: Seq<char>) -> nat
    decreases digits.len(),
{
    if digits.len() == 0 {
        0
    } else {
        decimal_value(digits.drop_last()) * 10 + digit_value(digits.last())
    }
}

/// The number that `digits` writes: one decimal digit or more, of a value
/// that a `u32` can hold. Anything else writes no number.
pub open spec fn parse_digits_spec(digits: Seq<char>) -> Option<u32> {
    if digits.len() > 0 && all_digits(digits) && decimal_value(digits) <= u32::MAX {
        Some(decimal_value(digits) as u32)
    } else {
        None
    }
}

/// The number that `text` writes: an optional plus sign and then one
/// decimal digit or more, of a value that a `u32` can hold. Anything else
/// writes no number.
pub open spec fn parse_u32_spec(text: Seq<char>) -> Option<u32> {
    if text.len() > 0 && text[0] == '+' {
        parse_digits_spec(text.drop_first())
    } else {
        parse_digits_spec(text)
    }
}

/// The number that `line` writes between the white space around it.
pub open spec fn read_number_spec(line: Seq<char>) -> Option<u32> {
    parse_u32_spec(trim_spec(line))
}

/// Where white space and nothing else stands before `start`, and no white
/// space at `start`, the text trimmed at its start begins at `start`.
pub proof fn lemma_trim_start(text: Seq<char>, start: int)
    requires
        0 <= start <= text.len(),
        forall|i: int| 0 <= i < start ==> is_white_space(#[trigger] text[i]),
        start < text.len() ==> !is_white_space(text[start]),
    ensures
        trim_start_spec(text) == text.subrange(start, text.len() as int),
    decreases start,
{
    if start == 0 {
        assert(text.subrange(0, text.len() as int) =~= text);
    } else {
        let rest = text.drop_first();
        assert(is_white_space(text[0]));
        assert forall|i: int| 0 <= i < start - 1 implies is_white_space(#[trigger] rest[i]) by {
            assert(rest[i] == text[i + 1]);
        }
        lemma_trim_start(rest, start - 1);
        assert(rest.subrange(start - 1, rest.len() as int) =~= text.subrange(
            start,
            text.len() as int,
        ));
    }
}

/// Where white space and nothing else stands from `end` on, and no white
/// space before `end`, the text trimmed at its end stops at `end`.
pub proof fn lemma_trim_end(text: Seq<char>, end: int)
    requires
        0 <= end <= text.len(),
        forall|i: int| end <= i < text.len() ==> is_white_space(#[trigger] text[i]),
        end > 0 ==> !is_white_space(text[end - 1]),
    ensures
        trim_end_spec(text) == text.subrange(0, end),
    decreases text.len() - end,
{
    if end == text.len() {
        assert(text.subrange(0, end) =~= text);
    } else {
        let front = text.drop_last();
        assert(is_white_space(text[text.len() - 1]));
        assert forall|i: int| end <= i < front.len() implies is_white_space(#[trigger] front[i]) by {
            assert(front[i] == text[i]);
        }
        lemma_trim_end(front, end);
        assert(front.subrange(0, end) =~= text.subrange(0, end));
    }
}

/// One more digit multiplies the value by ten and adds the digit.
pub proof fn lemma_decimal_value_step(digits: Seq<char>, i: int)
    requires
        0 <= i < digits.len(),
    ensures
        decimal_value(digits.subrange(0, i + 1)) == decimal_value(digits.subrange(0, i)) * 10
            + digit_value(digits[i]),
{
    assert(digits.subrange(0, i + 1).drop_last() =~= digits.subrange(0, i));
    assert(digits.subrange(0, i + 1).last() == digits[i]);
}

/// The value of digits is at least the value of any prefix of them.
pub proof fn lemma_decimal_value_grows(digits: Seq<char>, i: int)
    requires
        all_digits(digits),
        0 <= i <= digits.len(),
    ensures
        decimal_value(digits.subrange(0, i)) <= decimal_value(digits),
    decreases digits.len() - i,
{
    if i == digits.len() {
        assert(digits.subrange(0, i) =~= digits);
    } else {
        lemma_decimal_value_step(digits, i);
        lemma_decimal_value_grows(digits, i + 1);
    }
}

/// Whether `c` is white space, as Unicode defines it.
pub fn is_space(c: char) -> (space: bool)
    ensures
        space == is_white_space(c),
{
    let v = c as u32;
    (0x09 <= v && v <= 0x0D) || v == 0x20 || v == 0x85 || v == 0xA0 || v == 0x1680 || (0x2000
        <= v && v <= 0x200A) || v == 0x2028 || v == 0x2029 || v == 0x202F || v == 0x205F || v
        == 0x3000
}

/// The characters of `text`.
pub fn chars_of(text: &str) -> (chars: Vec<char>)
    ensures
        chars@ == text@,
{
    let mut chars: Vec<char> = Vec::new();
    for c in it: text.chars()
        invariant
            it.seq() == text@,
            chars@ == text@.take(it.index() as int),
    {
        assert(text@.take(it.index() + 1) =~= text@.take(it.index() as int).push(c));
        chars.push(c);
    }
    assert(text@.take(text@.len() as int) =~= text@);
    chars
}

/// The number that the digits from `start` up to `end` write.
pub fn parse_digits(chars: &[char], start: usize, end: usize) -> (number: Option<u32>)
    requires
        start <= end <= chars@.len(),
    ensures
        number == parse_digits_spec(chars@.subrange(start as int, end as int)),
{
    let ghost digits = chars@.subrange(start as int, end as int);
    if start == end {
        return None;
    }
    let mut value: u32 = 0;
    let mut i: usize = start;
    while i < end
        invariant
            start <= i <= end <= chars@.len(),
            digits == chars@.subrange(start as int, end as int),
            all_digits(digits.subrange(0, i - start)),
            value == decimal_value(digits.subrange(0, i - start)),
        decreases end - i,
    {
        let c = chars[i];
        assert(digits[i - start] == c);
        if !('0' <= c && c <= '9') {
            return None;
        }
        proof {
            lemma_decimal_value_step(digits, i - start);
            assert forall|j: int| 0 <= j < i - start + 1 implies is_digit(
                #[trigger] digits.subrange(0, i - start + 1)[j],
            ) by {
                if j < i - start {
                    assert(digits.subrange(0, i - start)[j] == digits[j]);
                }
            }
        }
        let digit: u32 = c as u32 - '0' as u32;
        let next = match value.checked_mul(10) {
            Some(tens) => tens.checked_add(digit),
            None => None,
        };
        match next {
            Some(next) => {
                value = next;
            },
            None => {
                proof {
                    if all_digits(digits) {
                        lemma_decimal_value_grows(digits, i - start + 1);
                    }
                }
                return None;
            },
        }
        i = i + 1;
    }
    assert(digits.subrange(0, end - start) =~= digits);
    Some(value)
}

/// The number that the characters from `start` up to `end` write.
pub fn parse_u32(chars: &[char], start: usize, end: usize) -> (number: Option<u32>)
    requires
        start <= end <= chars@.len(),
    ensures
        number == parse_u32_spec(chars@.subrange(start as int, end as int)),
{
    let ghost text = chars@.subrange(start as int, end as int);
    if start < end && chars[start] == '+' {
        assert(text[0] == '+');
        assert(text.drop_first() =~= chars@.subrange(start + 1, end as int));
        parse_digits(chars, start + 1, end)
    } else {
        if start < end {
            assert(text[0] == chars@[start as int]);
        }
        parse_digits(chars, start, end)
    }
}

/// The number that `line` writes between the white space around it, if it
/// writes one.
pub fn read_number(line: &str) -> (number: Option<u32>)
    ensures
        number == read_number_spec(line@),
{
    let chars = chars_of(line);
    let mut start: usize = 0;
    while start < chars.len() && is_space(chars[start])
        invariant
            start <= chars@.len(),
            forall|i: int| 0 <= i < start ==> is_white_space(#[trigger] chars@[i]),
        decreases chars@.len() - start,
    {
        start = start + 1;
    }
    let ghost tail = chars@.subrange(start as int, chars@.len() as int);
    proof {
        lemma_trim_start(chars@, start as int);
    }
    let mut end: usize = chars.len();
    while end > start && is_space(chars[end - 1])
        invariant
            start <= end <= chars@.len(),
            forall|i: int| end <= i < chars@.len() ==> is_white_space(#[trigger] chars@[i]),
        decreases end,
    {
        end = end - 1;
    }
    proof {
        assert forall|i: int| end - start <= i < tail.len() implies is_white_space(
            #[trigger] tail[i],
        ) by {
            assert(tail[i] == chars@[i + start]);
        }
        if end > start {
            assert(tail[end - start - 1] == chars@[end - 1]);
        }
        lemma_trim_end(tail, end - start);
        assert(tail.subrange(0, end - start) =~= chars@.subrange(start as int, end as int));
    }
    parse_u32(chars.as_slice(), start, end)
}

} // verus!
