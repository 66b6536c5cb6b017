//! Numbers as they are written in attributes: decimal integers, and decimal
//! numbers with a fraction and an exponent.
use vstd::prelude::*;
use crate::decimal::{is_decimal, Decimal};
use crate::error::{outcome, Error, ErrorView};
use crate::lift::view_of;
use crate::text::chars_of;

verus! {

/// Whether `c` is one of the ten digits `0` to `9`.
pub open spec fn is_digit(c: char) -> bool {
    '0' <= c <= '9'
}

/// The number that a digit stands for.
pub open spec fn digit_value(c: char) -> nat {
    (c as int - '0' as int) as nat
}

/// Whether every character of `s` is a digit. The empty text qualifies.
pub open spec fn all_digits(s: Seq<char>) -> bool {
    forall|i: int| 0 <= i < s.len() ==> is_digit(#[trigger] s[i])
}

/// The number that a text of digits denotes in base ten; 0 for the empty
/// text.
pub open spec fn digits_value(s: Seq<char>) -> nat
    decreases s.len(),
{
    if s.len() == 0 {
        0
    } else {
        10 * digits_value(s.drop_last()) + digit_value(s.last())
    }
}

/// Whether `s` starts with the character `c`.
pub open spec fn starts_with(s: Seq<char>, c: char) -> bool {
    s.len() > 0 && s[0] == c
}

/// The unsigned integer that `s` denotes: an optional `+`, then one or more
/// digits and nothing else, with a value that fits 32 bits. Everything else,
/// white space included, denotes none.
pub open spec fn parsed_u32(s: Seq<char>) -> Option<u32> {
    let body = if starts_with(s, '+') { s.skip(1) } else { s };
    if body.len() > 0 && all_digits(body) && digits_value(body) <= u32::MAX {
        Some(digits_value(body) as u32)
    } else {
        None
    }
}

/// The signed integer that `s` denotes: an optional `+` or `-`, then one or
/// more digits and nothing else, with a value that fits 32 bits.
pub open spec fn parsed_i32(s: Seq<char>) -> Option<i32> {
    let signed = starts_with(s, '+') || starts_with(s, '-');
    let body = if signed { s.skip(1) } else { s };
    let value = if starts_with(s, '-') {
        -(digits_value(body) as int)
    } else {
        digits_value(body) as int
    };
    if body.len() > 0 && all_digits(body) && i32::MIN <= value <= i32::MAX {
        Some(value as i32)
    } else {
        None
    }
}

/// A digit more at the end cannot make the value smaller.
pub proof fn lemma_digits_value_grows(s: Seq<char>, k: int)
    requires
        0 <= k <= s.len(),
    ensures
        digits_value(s.take(k)) <= digits_value(s),
    decreases s.len(),
{
    if k == s.len() {
        assert(s.take(k) == s);
    } else {
        lemma_digits_value_grows(s.drop_last(), k);
        assert(s.drop_last().take(k) == s.take(k));
    }
}

pub(crate) fn is_digit_char(c: char) -> (r: bool)
    ensures
        r == is_digit(c),
{
    '0' <= c && c <= '9'
}

pub(crate) fn digit_of(c: char) -> (d: u64)
    requires
        is_digit(c),
    ensures
        d == digit_value(c),
        d <= 9,
{
    (c as u64) - ('0' as u64)
}

/// The value of the digits from `from` to the end, where there is at least
/// one, all are digits, and the value is at most `limit`.
fn magnitude(chars: &Vec<char>, from: usize, limit: u64) -> (r: Option<u64>)
    requires
        from <= chars.len(),
        limit <= 0x1_0000_0000,
    ensures
        ({
            let body = chars@.skip(from as int);
            r == if body.len() > 0 && all_digits(body) && digits_value(body) <= limit {
                Some(digits_value(body) as u64)
            } else {
                None::<u64>
            }
        }),
{
    let n = chars.len();
    let ghost body = chars@.skip(from as int);
    if from == n {
        return None;
    }
    let mut value: u64 = 0;
    let mut i: usize = from;
    proof {
        assert(body.take(0) == Seq::<char>::empty());
    }
    while i < n
        invariant
            from <= i <= n,
            n == chars.len(),
            body == chars@.skip(from as int),
            limit <= 0x1_0000_0000,
            all_digits(body.take(i - from)),
            value == digits_value(body.take(i - from)),
            value <= limit,
        decreases n - i,
    {
        let c = chars[i];
        if !is_digit_char(c) {
            assert(!is_digit(body[i - from]));
            return None;
        }
        let d = digit_of(c);
        let ghost longer = body.take(i - from + 1);
        proof {
            assert(longer.drop_last() == body.take(i - from));
            assert(longer.last() == c);
            assert forall|j: int| 0 <= j < longer.len() implies is_digit(#[trigger] longer[j]) by {
                if j < i - from {
                    assert(longer[j] == body.take(i - from)[j]);
                }
            }
        }
        value = value * 10 + d;
        if value > limit {
            proof {
                lemma_digits_value_grows(body, i - from + 1);
            }
            return None;
        }
        i = i + 1;
    }
    proof {
        assert(body.take(n - from) == body);
    }
    Some(value)
}

/// Reads an unsigned integer, as [`parsed_u32`] says.
pub fn parse_u32(s: &str) -> (r: Option<u32>)
    ensures
        r == parsed_u32(s@),
{
    let chars = chars_of(s);
    let from: usize = if chars.len() > 0 && chars[0] == '+' { 1 } else { 0 };
    proof {
        assert(chars@.skip(0) == chars@);
    }
    match magnitude(&chars, from, 0xffff_ffff) {
        Some(value) => Some(value as u32),
        None => None,
    }
}

/// Reads a signed integer, as [`parsed_i32`] says.
pub fn parse_i32(s: &str) -> (r: Option<i32>)
    ensures
        r == parsed_i32(s@),
{
    let chars = chars_of(s);
    let negative = chars.len() > 0 && chars[0] == '-';
    let signed = negative || (chars.len() > 0 && chars[0] == '+');
    let from: usize = if signed { 1 } else { 0 };
    let limit: u64 = if negative { 0x8000_0000 } else { 0x7fff_ffff };
    proof {
        assert(chars@.skip(0) == chars@);
    }
    match magnitude(&chars, from, limit) {
        Some(value) => {
            if negative {
                Some((0 - (value as i64)) as i32)
            } else {
                Some(value as i32)
            }
        },
        None => None,
    }
}

/// A kind of number that can be read from a text.
pub trait Number: View + Sized {
    /// The number that a text denotes, if it denotes one of this kind.
    spec fn parsed(text: Seq<char>) -> Option<Self::V>;

    fn parse_text(text: &str) -> (r: Option<Self>)
        ensures
            view_of(r) == Self::parsed(text@),
    ;
}

impl Number for u32 {
    open spec fn parsed(text: Seq<char>) -> Option<u32> {
        parsed_u32(text)
    }

    fn parse_text(text: &str) -> (r: Option<u32>) {
        parse_u32(text)
    }
}

impl Number for i32 {
    open spec fn parsed(text: Seq<char>) -> Option<i32> {
        parsed_i32(text)
    }

    fn parse_text(text: &str) -> (r: Option<i32>) {
        parse_i32(text)
    }
}

impl Number for Decimal {
    open spec fn parsed(text: Seq<char>) -> Option<Seq<char>> {
        if is_decimal(text) {
            Some(text)
        } else {
            None
        }
    }

    fn parse_text(text: &str) -> (r: Option<Decimal>) {
        Decimal::parse(text)
    }
}

/// The number of kind `T` that a text denotes, or the text as an invalid
/// number.
pub open spec fn number_of<T: Number>(s: Seq<char>) -> Result<T::V, ErrorView> {
    match T::parsed(s) {
        Some(value) => Ok(value),
        None => Err(ErrorView::InvalidNumber(s)),
    }
}

/// Reads a number of kind `T`. A text that denotes none, or one that does
/// not fit, is the error, whole and unchanged.
pub fn read_num<T: Number>(s: &str) -> (r: Result<T, Error>)
    ensures
        outcome(r) == number_of::<T>(s@),
{
    match T::parse_text(s) {
        Some(value) => Ok(value),
        None => Err(Error::InvalidNumber(s.to_owned())),
    }
}

} // verus!
