//! Numbers as text.

use vstd::prelude::*;
use vstd::string::{StrSliceExecFns, StringExecFns};

verus! {

/// The character for a single decimal digit.
pub open spec fn digit(d: int) -> char {
    if d == 0 {
        '0'
    } else if d == 1 {
        '1'
    } else if d == 2 {
        '2'
    } else if d == 3 {
        '3'
    } else if d == 4 {
        '4'
    } else if d == 5 {
        '5'
    } else if d == 6 {
        '6'
    } else if d == 7 {
        '7'
    } else if d == 8 {
        '8'
    } else {
        '9'
    }
}

/// `n` written in decimal, without leading zeros.
pub open spec fn decimal_digits(n: nat) -> Seq<char>
    decreases n,
{
    if n < 10 {
        seq![digit(n as int)]
    } else {
        decimal_digits(n / 10).push(digit((n % 10) as int))
    }
}

/// A number of one digit is written with one character, any other with more.
pub proof fn lemma_decimal_digits_len(n: nat)
    ensures
        decimal_digits(n).len() >= 1,
        decimal_digits(n).len() == 1 <==> n < 10,
    decreases n,
{
    if n >= 10 {
        lemma_decimal_digits_len(n / 10);
    }
}

/// Different numbers are written differently.
pub proof fn lemma_decimal_digits_injective(a: nat, b: nat)
    requires
        decimal_digits(a) == decimal_digits(b),
    ensures
        a == b,
    decreases a,
{
    lemma_decimal_digits_len(a);
    lemma_decimal_digits_len(b);
    if a < 10 {
        assert(decimal_digits(a)[0] == digit(a as int));
        assert(decimal_digits(b)[0] == digit(b as int));
    } else {
        let front_a = decimal_digits(a / 10);
        let front_b = decimal_digits(b / 10);
        assert(decimal_digits(a).last() == digit((a % 10) as int));
        assert(decimal_digits(b).last() == digit((b % 10) as int));
        assert(decimal_digits(a).drop_last() =~= front_a);
        assert(decimal_digits(b).drop_last() =~= front_b);
        lemma_decimal_digits_injective(a / 10, b / 10);
    }
}

/// The text of a single decimal digit.
fn digit_text(d: u8) -> (r: &'static str)
    requires
        d < 10,
    ensures
        r@ == seq![digit(d as int)],
{
    proof {
        reveal_strlit("0");
        reveal_strlit("1");
        reveal_strlit("2");
        reveal_strlit("3");
        reveal_strlit("4");
        reveal_strlit("5");
        reveal_strlit("6");
        reveal_strlit("7");
        reveal_strlit("8");
        reveal_strlit("9");
    }
    let r = if d == 0 {
        "0"
    } else if d == 1 {
        "1"
    } else if d == 2 {
        "2"
    } else if d == 3 {
        "3"
    } else if d == 4 {
        "4"
    } else if d == 5 {
        "5"
    } else if d == 6 {
        "6"
    } else if d == 7 {
        "7"
    } else if d == 8 {
        "8"
    } else {
        "9"
    };
    assert(r@ =~= seq![digit(d as int)]);
    r
}

/// `n` written in decimal, without leading zeros.
pub fn decimal_text(n: u128) -> (r: String)
    ensures
        r@ == decimal_digits(n as nat),
{
    let mut text = String::from_str(digit_text((n % 10) as u8));
    let mut rest: u128 = n / 10;
    while rest > 0
        invariant
            decimal_digits(n as nat) == (if rest > 0 {
                decimal_digits(rest as nat) + text@
            } else {
                text@
            }),
        decreases rest,
    {
        let front = String::from_str(digit_text((rest % 10) as u8));
        proof {
            if rest >= 10 {
                assert(decimal_digits(rest as nat) + text@ =~= decimal_digits((rest / 10) as nat)
                    + (front@ + text@));
            } else {
                assert(decimal_digits(rest as nat) + text@ =~= front@ + text@);
            }
        }
        text = front.concat(text.as_str());
        rest = rest / 10;
    }
    text
}

/// What a hexadecimal digit counts for, in either case; `None` for any other
/// character.
pub open spec fn hex_digit(c: char) -> Option<int> {
    if '0' <= c <= '9' {
        Some(c as int - '0' as int)
    } else if 'a' <= c <= 'f' {
        Some(c as int - 'a' as int + 10)
    } else if 'A' <= c <= 'F' {
        Some(c as int - 'A' as int + 10)
    } else {
        None
    }
}

/// The number that `digits` spell in hexadecimal, if they are all
/// hexadecimal digits. No digits at all spell zero.
pub open spec fn hex_value(digits: Seq<char>) -> Option<int>
    decreases digits.len(),
{
    if digits.len() == 0 {
        Some(0)
    } else {
        match (hex_value(digits.drop_last()), hex_digit(digits.last())) {
            (Some(front), Some(last)) => Some(16 * front + last),
            _ => None,
        }
    }
}

/// The digits of `text`: all of it, but for a plus sign in front.
pub open spec fn unsigned_part(text: Seq<char>) -> Seq<char> {
    if text.len() > 0 && text[0] == '+' {
        text.skip(1)
    } else {
        text
    }
}

/// The 16-bit number that `text` spells in hexadecimal: one or more
/// hexadecimal digits, in either case, with or without a plus sign in front,
/// that do not go beyond `ffff`.
pub open spec fn hex_u16(text: Seq<char>) -> Option<u16> {
    let digits = unsigned_part(text);
    if digits.len() == 0 {
        None
    } else {
        match hex_value(digits) {
            Some(value) => if value <= 0xffff {
                Some(value as u16)
            } else {
                None
            },
            None => None,
        }
    }
}

/// More digits never spell a smaller number.
pub proof fn lemma_hex_value_grows(digits: Seq<char>, n: int)
    requires
        0 <= n <= digits.len(),
        hex_value(digits) is Some,
    ensures
        hex_value(digits.take(n)) is Some,
        0 <= hex_value(digits.take(n))->0 <= hex_value(digits)->0,
    decreases digits.len() - n,
{
    if n == digits.len() {
        assert(digits.take(n) =~= digits);
        lemma_hex_value_is_natural(digits);
    } else {
        lemma_hex_value_grows(digits, n + 1);
        assert(digits.take(n + 1).drop_last() =~= digits.take(n));
    }
}

/// No digits spell a number below zero.
pub proof fn lemma_hex_value_is_natural(digits: Seq<char>)
    requires
        hex_value(digits) is Some,
    ensures
        hex_value(digits)->0 >= 0,
    decreases digits.len(),
{
    if digits.len() > 0 {
        lemma_hex_value_is_natural(digits.drop_last());
    }
}

/// What a hexadecimal digit counts for.
fn hex_digit_of(c: char) -> (r: Option<u32>)
    ensures
        match r {
            Some(d) => hex_digit(c) == Some(d as int) && d < 16,
            None => hex_digit(c) is None,
        },
{
    if '0' <= c && c <= '9' {
        Some(c as u32 - '0' as u32)
    } else if 'a' <= c && c <= 'f' {
        Some(c as u32 - 'a' as u32 + 10)
    } else if 'A' <= c && c <= 'F' {
        Some(c as u32 - 'A' as u32 + 10)
    } else {
        None
    }
}

/// Reads a 16-bit number written in hexadecimal.
pub fn parse_hex_u16(text: &str) -> (r: Option<u16>)
    ensures
        r == hex_u16(text@),
{
    let len = text.unicode_len();
    let start: usize = if len > 0 && text.get_char(0) == '+' {
        1
    } else {
        0
    };
    let ghost digits = unsigned_part(text@);
    assert(digits =~= text@.skip(start as int));
    if start == len {
        return None;
    }
    let mut value: u32 = 0;
    let mut i: usize = start;
    while i < len
        invariant
            start <= i <= len == text@.len(),
            digits == text@.skip(start as int),
            digits == unsigned_part(text@),
            hex_value(digits.take(i - start)) == Some(value as int),
            value <= 0xffff,
        decreases len - i,
    {
        let ghost read = digits.take(i - start + 1);
        assert(read.drop_last() =~= digits.take(i - start));
        assert(read.last() == text@[i as int]);
        match hex_digit_of(text.get_char(i)) {
            Some(d) => {
                value = 16 * value + d;
                assert(hex_value(read) == Some(value as int));
                if value > 0xffff {
                    proof {
                        if hex_value(digits) is Some {
                            lemma_hex_value_grows(digits, i - start + 1);
                        }
                    }
                    return None;
                }
            },
            None => {
                assert(hex_value(read) is None);
                proof {
                    if hex_value(digits) is Some {
                        lemma_hex_value_grows(digits, i - start + 1);
                    }
                }
                return None;
            },
        }
        i = i + 1;
    }
    assert(digits.take(len - start) =~= digits);
    Some(value as u16)
}

/// What `char::is_whitespace` says of `c`: whether it has the Unicode
/// property `White_Space`.
pub uninterp spec fn white_space(c: char) -> bool;

/// For each character of `text`, whether it is white space.
pub open spec fn space_marks(text: Seq<char>) -> Seq<bool> {
    Seq::new(text.len(), |i: int| white_space(text[i]))
}

/// How many of `marks` are set in front, before the first that is not.
pub open spec fn leading(marks: Seq<bool>) -> nat
    decreases marks.len(),
{
    if marks.len() > 0 && marks[0] {
        1 + leading(marks.skip(1))
    } else {
        0
    }
}

/// How many of `marks` are set at the end, after the last that is not.
pub open spec fn trailing(marks: Seq<bool>) -> nat
    decreases marks.len(),
{
    if marks.len() > 0 && marks.last() {
        1 + trailing(marks.drop_last())
    } else {
        0
    }
}

/// Where what is kept of a text begins and where it ends, when `marks` says
/// of each character whether it is white space: after the white space in
/// front, and before the white space at the end. Of a text that is all
/// white space nothing is kept.
pub open spec fn kept(marks: Seq<bool>) -> (int, int) {
    let from = leading(marks) as int;
    if from == marks.len() {
        (from, from)
    } else {
        (from, marks.len() - trailing(marks))
    }
}

/// `text` without the white space in front of it and at its end.
pub open spec fn trim(text: Seq<char>) -> Seq<char> {
    let (from, to) = kept(space_marks(text));
    text.subrange(from, to)
}

/// `c` in upper case if it is one of the letters `a` to `z`, else `c` itself.
pub open spec fn upper_char(c: char) -> char {
    if 'a' <= c <= 'z' {
        ((c as int) - ('a' as int) + ('A' as int)) as char
    } else {
        c
    }
}

/// `text` with each of the letters `a` to `z` in upper case.
pub open spec fn upper_text(text: Seq<char>) -> Seq<char> {
    Seq::new(text.len(), |i: int| upper_char(text[i]))
}

/// `char::is_whitespace`: the answer depends on the character alone.
#[verifier::external_body]
fn is_white_space(c: char) -> (r: bool)
    ensures
        r == white_space(c),
{
    c.is_whitespace()
}

/// `str::to_ascii_uppercase`: a copy in which the letters `a` to `z` are
/// `A` to `Z` and every other character is as it was.
#[verifier::external_body]
fn ascii_upper(text: &str) -> (r: String)
    ensures
        r@ == upper_text(text@),
{
    text.to_ascii_uppercase()
}

/// Where what is kept of a text begins and where it ends, when `marks` says
/// of each character whether it is white space.
pub fn kept_range(marks: &Vec<bool>) -> (r: (usize, usize))
    ensures
        (r.0 as int, r.1 as int) == kept(marks@),
        r.0 <= r.1 <= marks@.len(),
{
    let len = marks.len();
    let mut from: usize = 0;
    assert(marks@.subrange(0, len as int) =~= marks@);
    while from < len && marks[from]
        invariant
            from <= len == marks@.len(),
            leading(marks@) == from + leading(marks@.subrange(from as int, len as int)),
        decreases len - from,
    {
        assert(marks@.subrange(from as int, len as int).skip(1) =~= marks@.subrange(
            from + 1,
            len as int,
        ));
        from = from + 1;
    }
    if from == len {
        return (from, from);
    }
    let mut to: usize = len;
    while marks[to - 1]
        invariant
            from < to <= len == marks@.len(),
            !marks@[from as int],
            trailing(marks@) == (len - to) + trailing(marks@.subrange(0, to as int)),
        decreases to,
    {
        assert(marks@.subrange(0, to as int).drop_last() =~= marks@.subrange(0, to - 1));
        to = to - 1;
    }
    (from, to)
}

/// For each character of `text`, whether it is white space.
fn marks_of(text: &str) -> (marks: Vec<bool>)
    ensures
        marks@ == space_marks(text@),
{
    let len = text.unicode_len();
    let mut marks: Vec<bool> = Vec::new();
    let mut i: usize = 0;
    while i < len
        invariant
            i <= len == text@.len(),
            marks@.len() == i,
            forall|j: int| 0 <= j < i ==> marks@[j] == white_space(text@[j]),
        decreases len - i,
    {
        marks.push(is_white_space(text.get_char(i)));
        i = i + 1;
    }
    assert(marks@ =~= space_marks(text@));
    marks
}

/// `text` without the white space in front of it and at its end.
pub fn trimmed(text: &str) -> (r: &str)
    ensures
        r@ == trim(text@),
{
    let marks = marks_of(text);
    let (from, to) = kept_range(&marks);
    text.substring_char(from, to)
}

/// `text` as the entry for a callsign takes it: without the white space
/// around it, and in capital letters.
pub fn tidied(text: &str) -> (r: String)
    ensures
        r@ == upper_text(trim(text@)),
{
    ascii_upper(trimmed(text))
}

} // verus!
