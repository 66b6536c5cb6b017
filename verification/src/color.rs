//! Colours, written as six or eight hexadecimal digits.
use vstd::prelude::*;
use crate::error::{plain, Error, ErrorView};
use crate::number::starts_with;
use crate::text::chars_of;

verus! {

/// A colour: alpha, red, green and blue, each from 0 to 255.
#[derive(Clone, Copy, Debug, PartialEq, Eq, Structural)]
pub struct Color(pub u8, pub u8, pub u8, pub u8);

/// The number that a hexadecimal digit stands for, in either case; none
/// for any other character.
pub open spec fn hex_digit_of(c: char) -> Option<u8> {
    if '0' <= c <= '9' {
        Some((c as int - '0' as int) as u8)
    } else if 'a' <= c <= 'f' {
        Some((c as int - 'a' as int + 10) as u8)
    } else if 'A' <= c <= 'F' {
        Some((c as int - 'A' as int + 10) as u8)
    } else {
        None
    }
}

/// The numbers of the hexadecimal digits among the characters of `s`, in
/// order. Other characters are left out.
pub open spec fn hex_digits(s: Seq<char>) -> Seq<u8>
    decreases s.len(),
{
    if s.len() == 0 {
        Seq::empty()
    } else {
        match hex_digit_of(s[0]) {
            Some(d) => seq![d] + hex_digits(s.skip(1)),
            None => hex_digits(s.skip(1)),
        }
    }
}

/// Sixteen times the first digit plus the second.
pub open spec fn pair_value(high: u8, low: u8) -> int {
    16 * high + low
}

/// The number that the first two hexadecimal digits among the characters
/// of `s` denote; none where `s` holds fewer than two.
pub open spec fn hex_pair_of(s: Seq<char>) -> Option<u8> {
    let digits = hex_digits(s);
    if digits.len() >= 2 {
        Some(pair_value(digits[0], digits[1]) as u8)
    } else {
        None
    }
}

/// The number that the two characters at `i` and `i + 1` denote, where
/// both are hexadecimal digits.
pub open spec fn pair_at(s: Seq<char>, i: int) -> Option<u8> {
    match (hex_digit_of(s[i]), hex_digit_of(s[i + 1])) {
        (Some(high), Some(low)) => Some(pair_value(high, low) as u8),
        _ => None,
    }
}

/// Red, green and blue from exactly six hexadecimal digits.
pub open spec fn rgb_of(s: Seq<char>) -> Option<(u8, u8, u8)> {
    if s.len() == 6 {
        match (pair_at(s, 0), pair_at(s, 2), pair_at(s, 4)) {
            (Some(r), Some(g), Some(b)) => Some((r, g, b)),
            _ => None,
        }
    } else {
        None
    }
}

/// `s` without its first character, if that is `#`.
pub open spec fn without_hash(s: Seq<char>) -> Seq<char> {
    if starts_with(s, '#') {
        s.skip(1)
    } else {
        s
    }
}

/// The colour that a text denotes: an optional `#`, then six hexadecimal
/// digits for red, green and blue, with alpha 255, or eight for alpha, red,
/// green and blue. Any other length, and any other character, denotes
/// none.
pub open spec fn color_of(s: Seq<char>) -> Option<Color> {
    let digits = without_hash(s);
    if digits.len() == 6 {
        match rgb_of(digits) {
            Some((r, g, b)) => Some(Color(255, r, g, b)),
            None => None,
        }
    } else if digits.len() == 8 {
        match (pair_at(digits, 0), rgb_of(digits.skip(2))) {
            (Some(a), Some((r, g, b))) => Some(Color(a, r, g, b)),
            _ => None,
        }
    } else {
        None
    }
}

/// The colour that a text denotes, or the text as an invalid colour.
pub open spec fn color_or_error(s: Seq<char>) -> Result<Color, ErrorView> {
    match color_of(s) {
        Some(color) => Ok(color),
        None => Err(ErrorView::InvalidColor(s)),
    }
}

/// Whether `c` is a hexadecimal digit.
pub open spec fn is_hex_digit(c: char) -> bool {
    hex_digit_of(c) is Some
}

/// The number that two hexadecimal digits denote: sixteen times the first
/// plus the second.
pub open spec fn byte_of(high: char, low: char) -> u8
    recommends
        is_hex_digit(high),
        is_hex_digit(low),
{
    pair_value(hex_digit_of(high).unwrap(), hex_digit_of(low).unwrap()) as u8
}

/// Six hexadecimal digits are a colour with alpha 255 and the three pairs
/// as red, green and blue; with a `#` in front they are the same colour.
pub proof fn lemma_six_digits(s: Seq<char>)
    requires
        s.len() == 6,
        forall|i: int| 0 <= i < 6 ==> is_hex_digit(s[i]),
    ensures
        color_of(s) == Some(
            Color(255, byte_of(s[0], s[1]), byte_of(s[2], s[3]), byte_of(s[4], s[5])),
        ),
        color_of(seq!['#'] + s) == color_of(s),
{
    assert(is_hex_digit(s[0]) && is_hex_digit(s[1]) && is_hex_digit(s[2]));
    assert(is_hex_digit(s[3]) && is_hex_digit(s[4]) && is_hex_digit(s[5]));
    lemma_hash_is_optional(s);
}

/// Eight hexadecimal digits are a colour with the four pairs as alpha,
/// red, green and blue; with a `#` in front they are the same colour.
pub proof fn lemma_eight_digits(s: Seq<char>)
    requires
        s.len() == 8,
        forall|i: int| 0 <= i < 8 ==> is_hex_digit(s[i]),
    ensures
        color_of(s) == Some(
            Color(
                byte_of(s[0], s[1]),
                byte_of(s[2], s[3]),
                byte_of(s[4], s[5]),
                byte_of(s[6], s[7]),
            ),
        ),
        color_of(seq!['#'] + s) == color_of(s),
{
    let t = s.skip(2);
    assert(is_hex_digit(s[0]) && is_hex_digit(s[1]) && is_hex_digit(s[2]) && is_hex_digit(s[3]));
    assert(is_hex_digit(s[4]) && is_hex_digit(s[5]) && is_hex_digit(s[6]) && is_hex_digit(s[7]));
    assert(t[0] == s[2] && t[1] == s[3] && t[2] == s[4] && t[3] == s[5] && t[4] == s[6] && t[5]
        == s[7]);
    lemma_hash_is_optional(s);
}

/// A `#` in front of a text that has none changes nothing.
pub proof fn lemma_hash_is_optional(s: Seq<char>)
    requires
        !starts_with(s, '#'),
    ensures
        color_of(seq!['#'] + s) == color_of(s),
{
    let t = seq!['#'] + s;
    assert(t[0] == '#');
    assert(t.skip(1) == s);
}

/// A text is refused exactly when, its `#` apart, it is not six or eight
/// characters long or holds a character that is no hexadecimal digit.
pub proof fn lemma_color_refused(s: Seq<char>)
    ensures
        color_of(s) is None <==> {
            let digits = without_hash(s);
            ||| digits.len() != 6 && digits.len() != 8
            ||| exists|i: int| 0 <= i < digits.len() && !is_hex_digit(digits[i])
        },
{
    let digits = without_hash(s);
    if digits.len() == 6 {
        if color_of(s) is None {
            if !is_hex_digit(digits[0]) {
            } else if !is_hex_digit(digits[1]) {
            } else if !is_hex_digit(digits[2]) {
            } else if !is_hex_digit(digits[3]) {
            } else if !is_hex_digit(digits[4]) {
            } else {
                assert(!is_hex_digit(digits[5]));
            }
        }
    } else if digits.len() == 8 {
        let t = digits.skip(2);
        assert(t[0] == digits[2] && t[1] == digits[3] && t[2] == digits[4] && t[3] == digits[5]
            && t[4] == digits[6] && t[5] == digits[7]);
        if color_of(s) is None {
            if !is_hex_digit(digits[0]) {
            } else if !is_hex_digit(digits[1]) {
            } else if !is_hex_digit(digits[2]) {
            } else if !is_hex_digit(digits[3]) {
            } else if !is_hex_digit(digits[4]) {
            } else if !is_hex_digit(digits[5]) {
            } else if !is_hex_digit(digits[6]) {
            } else {
                assert(!is_hex_digit(digits[7]));
            }
        }
    }
}

/// The number that a hexadecimal digit stands for.
pub fn hex_char_to_number(c: char) -> (r: Option<u8>)
    ensures
        r == hex_digit_of(c),
{
    match c {
        '0' => Some(0),
        '1' => Some(1),
        '2' => Some(2),
        '3' => Some(3),
        '4' => Some(4),
        '5' => Some(5),
        '6' => Some(6),
        '7' => Some(7),
        '8' => Some(8),
        '9' => Some(9),
        'a' | 'A' => Some(10),
        'b' | 'B' => Some(11),
        'c' | 'C' => Some(12),
        'd' | 'D' => Some(13),
        'e' | 'E' => Some(14),
        'f' | 'F' => Some(15),
        _ => None,
    }
}

/// The number that the first two hexadecimal digits in `s` denote.
/// Characters that are no such digits are passed over.
pub fn hex_pair_to_number(s: &str) -> (r: Option<u8>)
    ensures
        r == hex_pair_of(s@),
{
    let chars = chars_of(s);
    let n = chars.len();
    let mut found: Vec<u8> = Vec::new();
    let mut i: usize = 0;
    proof {
        assert(s@.skip(0) == s@);
        assert(found@ + hex_digits(s@) == hex_digits(s@));
    }
    while i < n && found.len() < 2
        invariant
            chars@ == s@,
            n == chars.len(),
            i <= n,
            found.len() <= 2,
            hex_digits(s@) == found@ + hex_digits(s@.skip(i as int)),
            forall|k: int| 0 <= k < found.len() ==> found@[k] <= 15,
        decreases n - i,
    {
        proof {
            assert(s@.skip(i as int).skip(1) == s@.skip(i + 1));
        }
        match hex_char_to_number(chars[i]) {
            Some(d) => {
                proof {
                    assert(found@ + (seq![d] + hex_digits(s@.skip(i + 1))) == found@.push(d)
                        + hex_digits(s@.skip(i + 1)));
                }
                found.push(d);
            },
            None => {},
        }
        i = i + 1;
    }
    if found.len() == 2 {
        Some(16 * found[0] + found[1])
    } else {
        proof {
            assert(s@.skip(n as int) == Seq::<char>::empty());
            assert(found@ + Seq::<u8>::empty() == found@);
        }
        None
    }
}

/// The pair of digits at `i` and `i + 1`.
fn pair(chars: &Vec<char>, i: usize) -> (r: Option<u8>)
    requires
        i + 1 < chars.len(),
    ensures
        r == pair_at(chars@, i as int),
{
    match (hex_char_to_number(chars[i]), hex_char_to_number(chars[i + 1])) {
        (Some(high), Some(low)) => Some(16 * high + low),
        _ => None,
    }
}

/// Three pairs of digits from `from` on.
fn rgb(chars: &Vec<char>, from: usize) -> (r: Option<(u8, u8, u8)>)
    requires
        from + 6 == chars.len(),
    ensures
        r == rgb_of(chars@.skip(from as int)),
{
    let ghost t = chars@.skip(from as int);
    proof {
        assert(t[0] == chars@[from + 0] && t[1] == chars@[from + 1] && t[2] == chars@[from + 2]);
        assert(t[3] == chars@[from + 3] && t[4] == chars@[from + 4] && t[5] == chars@[from + 5]);
    }
    match (pair(chars, from), pair(chars, from + 2), pair(chars, from + 4)) {
        (Some(r), Some(g), Some(b)) => Some((r, g, b)),
        _ => None,
    }
}

/// Red, green and blue from a text of exactly six hexadecimal digits.
pub fn hex_rgb_to_rgb(s: &str) -> (r: Option<(u8, u8, u8)>)
    ensures
        r == rgb_of(s@),
{
    let chars = chars_of(s);
    if chars.len() == 6 {
        proof {
            assert(chars@.skip(0) == chars@);
        }
        rgb(&chars, 0)
    } else {
        None
    }
}

impl Color {
    /// Reads a colour, as [`color_of`] says. A text that is none is the
    /// error, whole and unchanged.
    pub fn from_str(s: &str) -> (r: Result<Color, Error>)
        ensures
            plain(r) == color_or_error(s@),
    {
        let chars = chars_of(s);
        let n = chars.len();
        let from: usize = if n > 0 && chars[0] == '#' { 1 } else { 0 };
        let ghost digits = chars@.skip(from as int);
        proof {
            assert(chars@.skip(0) == chars@);
            assert(digits == without_hash(s@));
        }
        let color = if n - from == 6 {
            match rgb(&chars, from) {
                Some((r, g, b)) => Some(Color(255, r, g, b)),
                None => None,
            }
        } else if n - from == 8 {
            proof {
                assert(digits.skip(2) == chars@.skip(from + 2));
                assert(digits[0] == chars@[from + 0] && digits[1] == chars@[from + 1]);
            }
            match (pair(&chars, from), rgb(&chars, from + 2)) {
                (Some(a), Some((r, g, b))) => Some(Color(a, r, g, b)),
                _ => None,
            }
        } else {
            None
        };
        match color {
            Some(c) => Ok(c),
            None => Err(Error::InvalidColor(s.to_owned())),
        }
    }
}

} // verus!
