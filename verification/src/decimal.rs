//! Decimal numbers with a fraction and an exponent, kept as they are
//! written.
//!
//! No machine number is made of them here. What is decided is whether a
//! text is such a number, by the grammar that `f32` and `f64` read one
//! with, and whether the number written lies between 0 and 1.
use vstd::prelude::*;
use crate::lift::view_of;
use crate::number::{
    all_digits, digit_of, digit_value, digits_value, is_digit, is_digit_char, starts_with,
};
use crate::text::chars_of;

verus! {

/// How many digits `s` starts with.
pub open spec fn leading_digits(s: Seq<char>) -> nat
    decreases s.len(),
{
    if s.len() > 0 && is_digit(s[0]) {
        1 + leading_digits(s.skip(1))
    } else {
        0
    }
}

/// `s` without its sign, if it starts with `+` or `-`.
pub open spec fn unsigned(s: Seq<char>) -> Seq<char> {
    if starts_with(s, '+') || starts_with(s, '-') {
        s.skip(1)
    } else {
        s
    }
}

/// Whether `s` is `word`, each letter in either case: `small` holds the
/// word in small letters and `capital` in capitals.
pub open spec fn spells(s: Seq<char>, small: Seq<char>, capital: Seq<char>) -> bool {
    &&& s.len() == small.len()
    &&& forall|i: int| 0 <= i < s.len() ==> s[i] == small[i] || s[i] == capital[i]
}

/// `inf` or `infinity`, in any mix of cases.
pub open spec fn is_infinity(s: Seq<char>) -> bool {
    ||| spells(s, seq!['i', 'n', 'f'], seq!['I', 'N', 'F'])
    ||| spells(
        s,
        seq!['i', 'n', 'f', 'i', 'n', 'i', 't', 'y'],
        seq!['I', 'N', 'F', 'I', 'N', 'I', 'T', 'Y'],
    )
}

/// `nan`, in any mix of cases.
pub open spec fn is_nan(s: Seq<char>) -> bool {
    spells(s, seq!['n', 'a', 'n'], seq!['N', 'A', 'N'])
}

/// An exponent: `e` or `E`, an optional sign, one or more digits.
pub open spec fn is_exponent(s: Seq<char>) -> bool {
    &&& starts_with(s, 'e') || starts_with(s, 'E')
    &&& unsigned(s.skip(1)).len() > 0
    &&& all_digits(unsigned(s.skip(1)))
}

/// The parts of an unsigned text read as digits, an optional `.` with more
/// digits, and a rest.
pub struct Parts {
    /// The digits before the `.`.
    pub whole: Seq<char>,
    /// The digits after the `.`; empty where there is no `.`.
    pub fraction: Seq<char>,
    /// What follows the digits.
    pub rest: Seq<char>,
}

/// Cuts `s` into its [`Parts`], taking as many digits as there are.
pub open spec fn parts_of(s: Seq<char>) -> Parts {
    let a = leading_digits(s);
    let after = s.skip(a as int);
    if starts_with(after, '.') {
        let b = leading_digits(after.skip(1));
        Parts {
            whole: s.take(a as int),
            fraction: after.skip(1).take(b as int),
            rest: after.skip(1 + b as int),
        }
    } else {
        Parts { whole: s.take(a as int), fraction: Seq::empty(), rest: after }
    }
}

/// A plain number: digits with an optional `.` among them, at least one
/// digit in all, then an optional exponent.
pub open spec fn is_number(s: Seq<char>) -> bool {
    let p = parts_of(s);
    &&& p.whole.len() + p.fraction.len() > 0
    &&& p.rest.len() == 0 || is_exponent(p.rest)
}

/// Whether `s` is a decimal number as `f32` and `f64` read one from a
/// string: an optional sign, then `inf`, `infinity`, `nan` or a plain
/// number. White space anywhere makes it none.
pub open spec fn is_decimal(s: Seq<char>) -> bool {
    let u = unsigned(s);
    is_infinity(u) || is_nan(u) || is_number(u)
}

/// The first place at or after `from` that holds no digit.
fn digits_end(chars: &Vec<char>, from: usize) -> (end: usize)
    requires
        from <= chars.len(),
    ensures
        from <= end <= chars.len(),
        end - from == leading_digits(chars@.skip(from as int)),
{
    let n = chars.len();
    let mut i: usize = from;
    while i < n && is_digit_char(chars[i])
        invariant
            from <= i <= n,
            n == chars.len(),
            leading_digits(chars@.skip(from as int)) == (i - from) + leading_digits(
                chars@.skip(i as int),
            ),
        decreases n - i,
    {
        proof {
            assert(chars@.skip(i as int).skip(1) == chars@.skip(i + 1));
        }
        i = i + 1;
    }
    i
}

fn is_letter(chars: &Vec<char>, i: usize, small: char, capital: char) -> (r: bool)
    requires
        i < chars.len(),
    ensures
        r == (chars@[i as int] == small || chars@[i as int] == capital),
{
    chars[i] == small || chars[i] == capital
}

/// Whether the characters from `from` on spell `inf`, `infinity` or `nan`.
fn is_special_at(chars: &Vec<char>, from: usize) -> (r: bool)
    requires
        from <= chars.len(),
    ensures
        r == (is_infinity(chars@.skip(from as int)) || is_nan(chars@.skip(from as int))),
{
    let n = chars.len() - from;
    let ghost u = chars@.skip(from as int);
    if n == 3 {
        let inf = is_letter(chars, from, 'i', 'I') && is_letter(chars, from + 1, 'n', 'N')
            && is_letter(chars, from + 2, 'f', 'F');
        let nan = is_letter(chars, from, 'n', 'N') && is_letter(chars, from + 1, 'a', 'A')
            && is_letter(chars, from + 2, 'n', 'N');
        proof {
            let small = seq!['i', 'n', 'f'];
            let capital = seq!['I', 'N', 'F'];
            if spells(u, small, capital) {
                assert(u[0] == small[0] || u[0] == capital[0]);
                assert(u[1] == small[1] || u[1] == capital[1]);
                assert(u[2] == small[2] || u[2] == capital[2]);
            }
            let small = seq!['n', 'a', 'n'];
            let capital = seq!['N', 'A', 'N'];
            if spells(u, small, capital) {
                assert(u[0] == small[0] || u[0] == capital[0]);
                assert(u[1] == small[1] || u[1] == capital[1]);
                assert(u[2] == small[2] || u[2] == capital[2]);
            }
        }
        inf || nan
    } else if n == 8 {
        let r = is_letter(chars, from, 'i', 'I') && is_letter(chars, from + 1, 'n', 'N')
            && is_letter(chars, from + 2, 'f', 'F') && is_letter(chars, from + 3, 'i', 'I')
            && is_letter(chars, from + 4, 'n', 'N') && is_letter(chars, from + 5, 'i', 'I')
            && is_letter(chars, from + 6, 't', 'T') && is_letter(chars, from + 7, 'y', 'Y');
        proof {
            let small = seq!['i', 'n', 'f', 'i', 'n', 'i', 't', 'y'];
            let capital = seq!['I', 'N', 'F', 'I', 'N', 'I', 'T', 'Y'];
            if spells(u, small, capital) {
                assert(u[0] == small[0] || u[0] == capital[0]);
                assert(u[1] == small[1] || u[1] == capital[1]);
                assert(u[2] == small[2] || u[2] == capital[2]);
                assert(u[3] == small[3] || u[3] == capital[3]);
                assert(u[4] == small[4] || u[4] == capital[4]);
                assert(u[5] == small[5] || u[5] == capital[5]);
                assert(u[6] == small[6] || u[6] == capital[6]);
                assert(u[7] == small[7] || u[7] == capital[7]);
            }
        }
        r
    } else {
        false
    }
}

/// Whether the characters from `from` on are an exponent.
fn is_exponent_at(chars: &Vec<char>, from: usize) -> (r: bool)
    requires
        from < chars.len(),
    ensures
        r == is_exponent(chars@.skip(from as int)),
{
    let n = chars.len();
    let ghost e = chars@.skip(from as int);
    if !is_letter(chars, from, 'e', 'E') {
        return false;
    }
    let signed = from + 1 < n && (chars[from + 1] == '+' || chars[from + 1] == '-');
    let start: usize = if signed { from + 2 } else { from + 1 };
    let end = digits_end(chars, start);
    proof {
        assert(e.skip(1) == chars@.skip(from + 1));
        if signed {
            assert(chars@.skip(from + 1).skip(1) == chars@.skip(from + 2));
        }
        let digits = chars@.skip(start as int);
        assert(digits == unsigned(e.skip(1)));
        lemma_leading_digits(digits);
    }
    start < n && end == n
}

/// `leading_digits` counts digits: all before it are digits, and none
/// stands at it. It is the length exactly when all are digits.
pub proof fn lemma_leading_digits(s: Seq<char>)
    ensures
        leading_digits(s) <= s.len(),
        all_digits(s.take(leading_digits(s) as int)),
        leading_digits(s) < s.len() ==> !is_digit(s[leading_digits(s) as int]),
        all_digits(s) <==> leading_digits(s) == s.len(),
    decreases s.len(),
{
    if s.len() > 0 && is_digit(s[0]) {
        let t = s.skip(1);
        lemma_leading_digits(t);
        let k = leading_digits(s) as int;
        assert forall|i: int| 0 <= i < k implies is_digit(#[trigger] s.take(k)[i]) by {
            if i > 0 {
                assert(s.take(k)[i] == t.take(k - 1)[i - 1]);
            }
        }
        if k < s.len() {
            assert(s[k] == t[k - 1]);
        }
        if all_digits(s) {
            assert forall|i: int| 0 <= i < t.len() implies is_digit(#[trigger] t[i]) by {
                assert(t[i] == s[i + 1]);
            }
        }
        if k == s.len() {
            assert(s.take(k) == s);
        }
    } else {
        if s.len() > 0 {
            assert(!is_digit(s[0]));
        }
    }
}

/// Whether the characters from `from` on are a plain number.
fn is_number_at(chars: &Vec<char>, from: usize) -> (r: bool)
    requires
        from <= chars.len(),
    ensures
        r == is_number(chars@.skip(from as int)),
{
    let n = chars.len();
    let ghost u = chars@.skip(from as int);
    let a = digits_end(chars, from);
    let ghost after = u.skip(a - from);
    proof {
        assert(after == chars@.skip(a as int));
    }
    if a < n && chars[a] == '.' {
        let b = digits_end(chars, a + 1);
        proof {
            assert(after.skip(1) == chars@.skip(a + 1));
            assert(after.skip(1 + (b - (a + 1))) == chars@.skip(b as int));
            assert(parts_of(u).rest == chars@.skip(b as int));
            assert(parts_of(u).whole.len() == a - from);
            assert(parts_of(u).fraction.len() == b - (a + 1));
        }
        if (a - from) + (b - (a + 1)) == 0 {
            false
        } else if b == n {
            true
        } else {
            is_exponent_at(chars, b)
        }
    } else {
        proof {
            assert(parts_of(u).rest == chars@.skip(a as int));
            assert(parts_of(u).whole.len() == a - from);
            assert(parts_of(u).fraction.len() == 0);
        }
        if a == from {
            false
        } else if a == n {
            true
        } else {
            is_exponent_at(chars, a)
        }
    }
}

/// Whether the characters are a decimal number, as [`is_decimal`] says.
fn is_decimal_chars(chars: &Vec<char>) -> (r: bool)
    ensures
        r == is_decimal(chars@),
{
    let n = chars.len();
    let signed = n > 0 && (chars[0] == '+' || chars[0] == '-');
    let from: usize = if signed { 1 } else { 0 };
    proof {
        assert(chars@.skip(0) == chars@);
    }
    is_special_at(chars, from) || is_number_at(chars, from)
}

/// Ten to the power `n`.
pub open spec fn pow10(n: nat) -> nat
    decreases n,
{
    if n == 0 {
        1
    } else {
        10 * pow10((n - 1) as nat)
    }
}

/// The exponent that the rest of a plain number denotes; 0 where there is
/// none.
pub open spec fn exponent_of(rest: Seq<char>) -> int {
    if rest.len() == 0 {
        0
    } else if starts_with(rest.skip(1), '-') {
        -(digits_value(rest.skip(2)) as int)
    } else {
        digits_value(unsigned(rest.skip(1))) as int
    }
}

/// Whether `mantissa` times ten to the power `scale` is at most 1.
pub open spec fn at_most_one(mantissa: nat, scale: int) -> bool {
    if scale >= 0 {
        mantissa * pow10(scale as nat) <= 1
    } else {
        mantissa <= pow10((-scale) as nat)
    }
}

/// Whether the number that `s` denotes lies between 0 and 1, both
/// included. The number is taken exactly as it is written, digit for
/// digit, and not rounded to any machine format. A zero of either sign
/// lies between them; infinity, nan and what is no number do not.
pub open spec fn in_unit_interval(s: Seq<char>) -> bool {
    let p = parts_of(unsigned(s));
    let mantissa = digits_value(p.whole + p.fraction);
    let scale = exponent_of(p.rest) - p.fraction.len();
    &&& is_number(unsigned(s))
    &&& mantissa == 0 || (!starts_with(s, '-') && at_most_one(mantissa, scale))
}

/// Whether every character of `s` is the digit `0`.
pub open spec fn all_zeros(s: Seq<char>) -> bool {
    forall|i: int| 0 <= i < s.len() ==> #[trigger] s[i] == '0'
}

/// Powers of ten are at least 1 and grow with the exponent.
pub proof fn lemma_pow10_grows(a: nat, b: nat)
    requires
        a <= b,
    ensures
        1 <= pow10(a) <= pow10(b),
    decreases b,
{
    if b == 0 {
    } else if a == b {
        lemma_pow10_grows((a - 1) as nat, (b - 1) as nat);
    } else {
        lemma_pow10_grows(a, (b - 1) as nat);
    }
}

/// The value of a text of digits is that of its first digit, shifted, plus
/// that of the rest.
pub proof fn lemma_value_by_first(s: Seq<char>)
    requires
        s.len() > 0,
    ensures
        digits_value(s) == digit_value(s[0]) * pow10((s.len() - 1) as nat) + digits_value(
            s.skip(1),
        ),
    decreases s.len(),
{
    if s.len() == 1 {
        assert(s.drop_last() == Seq::<char>::empty());
        assert(s.skip(1) == Seq::<char>::empty());
        assert(digits_value(Seq::<char>::empty()) == 0);
        assert(s.last() == s[0]);
        assert(pow10(0) == 1);
        assert(digits_value(s) == digit_value(s[0]));
    } else {
        let t = s.drop_last();
        let u = s.skip(1);
        lemma_value_by_first(t);
        assert(u.drop_last() == t.skip(1));
        assert(u.last() == s.last());
        assert(t[0] == s[0]);
        let d = digit_value(s[0]);
        let q = pow10((s.len() - 2) as nat);
        assert(pow10((s.len() - 1) as nat) == 10 * q);
        assert(d * (10 * q) == 10 * (d * q)) by (nonlinear_arith);
        assert(digits_value(t) == d * q + digits_value(t.skip(1)));
        assert(digits_value(s) == 10 * digits_value(t) + digit_value(s.last()));
        assert(digits_value(u) == 10 * digits_value(t.skip(1)) + digit_value(s.last()));
    }
}

/// A text of `n` digits denotes a number below ten to the power `n`.
pub proof fn lemma_value_below(s: Seq<char>)
    requires
        all_digits(s),
    ensures
        digits_value(s) < pow10(s.len()),
    decreases s.len(),
{
    if s.len() > 0 {
        let t = s.drop_last();
        assert forall|i: int| 0 <= i < t.len() implies is_digit(#[trigger] t[i]) by {
            assert(t[i] == s[i]);
        }
        lemma_value_below(t);
        assert(is_digit(s[s.len() - 1]));
    }
}

/// A text of digits denotes 0 exactly when all its digits are `0`.
pub proof fn lemma_value_zero(s: Seq<char>)
    requires
        all_digits(s),
    ensures
        digits_value(s) == 0 <==> all_zeros(s),
    decreases s.len(),
{
    if s.len() > 0 {
        let t = s.drop_last();
        assert forall|i: int| 0 <= i < t.len() implies is_digit(#[trigger] t[i]) by {
            assert(t[i] == s[i]);
        }
        lemma_value_zero(t);
        assert(is_digit(s[s.len() - 1]));
        if all_zeros(s) {
            assert forall|i: int| 0 <= i < t.len() implies #[trigger] t[i] == '0' by {
                assert(t[i] == s[i]);
            }
            assert(s[s.len() - 1] == '0');
        }
        if digits_value(s) == 0 {
            assert forall|i: int| 0 <= i < s.len() implies #[trigger] s[i] == '0' by {
                if i < t.len() {
                    assert(t[i] == s[i]);
                }
            }
        }
    }
}

/// Zeros in front do not change the value.
pub proof fn lemma_leading_zeros(s: Seq<char>, k: int)
    requires
        0 <= k <= s.len(),
        all_zeros(s.take(k)),
    ensures
        digits_value(s) == digits_value(s.skip(k)),
    decreases k,
{
    if k == 0 {
        assert(s.skip(0) == s);
    } else {
        assert(s.take(k)[0] == '0');
        lemma_value_by_first(s);
        let t = s.skip(1);
        assert forall|i: int| 0 <= i < k - 1 implies #[trigger] t.take(k - 1)[i] == '0' by {
            assert(t.take(k - 1)[i] == s.take(k)[i + 1]);
        }
        lemma_leading_zeros(t, k - 1);
        assert(t.skip(k - 1) == s.skip(k));
        assert(0 * pow10((s.len() - 1) as nat) == 0);
    }
}

/// For a number of `d` digits whose first digit is not `0`: it is at most
/// ten to the power `j` exactly when it has at most `j` digits, or has one
/// more and is a `1` followed by zeros.
pub proof fn lemma_at_most_power(sig: Seq<char>, j: nat)
    requires
        sig.len() > 0,
        all_digits(sig),
        sig[0] != '0',
    ensures
        digits_value(sig) >= 1,
        digits_value(sig) <= pow10(j) <==> (sig.len() <= j || (sig.len() == j + 1 && sig[0] == '1'
            && all_zeros(sig.skip(1)))),
{
    let d = sig.len();
    let rest = sig.skip(1);
    let top = pow10((d - 1) as nat);
    let first = digit_value(sig[0]);
    lemma_value_by_first(sig);
    lemma_value_below(sig);
    assert forall|i: int| 0 <= i < rest.len() implies is_digit(#[trigger] rest[i]) by {
        assert(rest[i] == sig[i + 1]);
    }
    lemma_value_below(rest);
    lemma_value_zero(rest);
    assert(is_digit(sig[0]));
    assert(1 <= first <= 9);
    lemma_pow10_grows(0, (d - 1) as nat);
    assert(first * top >= top) by (nonlinear_arith)
        requires
            first >= 1,
            top >= 1,
    ;
    if d <= j {
        lemma_pow10_grows(d, j);
    } else if d == j + 1 {
        if first >= 2 {
            assert(first * top >= 2 * top) by (nonlinear_arith)
                requires
                    first >= 2,
                    top >= 1,
            ;
        } else {
            assert(first * top == top) by (nonlinear_arith)
                requires
                    first == 1,
            ;
        }
    } else {
        lemma_pow10_grows(j + 1, (d - 1) as nat);
    }
}

/// The digits of a plain number that starts at `from`: those before and
/// after the `.` in one vector, how many of them stood after it, and the
/// place where the rest starts.
fn digits_at(chars: &Vec<char>, from: usize) -> (r: (Vec<char>, usize, usize))
    requires
        from <= chars.len(),
    ensures
        ({
            let p = parts_of(chars@.skip(from as int));
            &&& r.0@ == p.whole + p.fraction
            &&& r.1 == p.fraction.len()
            &&& r.2 <= chars.len()
            &&& chars@.skip(r.2 as int) == p.rest
            &&& all_digits(r.0@)
        }),
{
    let n = chars.len();
    let ghost u = chars@.skip(from as int);
    let a = digits_end(chars, from);
    let mut digits: Vec<char> = Vec::new();
    let mut i: usize = from;
    proof {
        lemma_leading_digits(u);
        assert(u.skip(a - from) == chars@.skip(a as int));
    }
    while i < a
        invariant
            from <= i <= a <= chars.len(),
            u == chars@.skip(from as int),
            digits@ == u.take(i - from),
        decreases a - i,
    {
        digits.push(chars[i]);
        proof {
            assert(u.take(i - from).push(chars@[i as int]) == u.take(i + 1 - from));
        }
        i = i + 1;
    }
    if a < n && chars[a] == '.' {
        let b = digits_end(chars, a + 1);
        let ghost after = chars@.skip(a + 1);
        proof {
            lemma_leading_digits(after);
            assert(u.skip(a - from).skip(1) == after);
            assert(u.skip(a - from).skip(1 + (b - (a + 1))) == chars@.skip(b as int));
            assert(digits@ + after.take(0) == digits@);
        }
        let ghost whole = digits@;
        let mut k: usize = a + 1;
        while k < b
            invariant
                a + 1 <= k <= b <= chars.len(),
                after == chars@.skip(a + 1),
                digits@ == whole + after.take(k - (a + 1)),
            decreases b - k,
        {
            digits.push(chars[k]);
            proof {
                assert((whole + after.take(k - (a + 1))).push(chars@[k as int]) == whole
                    + after.take(k + 1 - (a + 1)));
            }
            k = k + 1;
        }
        proof {
            let fraction = after.take(b - (a + 1));
            assert forall|j: int| 0 <= j < digits@.len() implies is_digit(
                #[trigger] digits@[j],
            ) by {
                if j < whole.len() {
                    assert(digits@[j] == whole[j]);
                } else {
                    assert(digits@[j] == fraction[j - whole.len()]);
                }
            }
        }
        (digits, b - (a + 1), b)
    } else {
        proof {
            assert(digits@ + Seq::<char>::empty() == digits@);
        }
        (digits, 0, a)
    }
}

/// The first place that holds no `0`, or the length.
fn zeros_end(digits: &Vec<char>, from: usize) -> (end: usize)
    requires
        from <= digits.len(),
    ensures
        from <= end <= digits.len(),
        all_zeros(digits@.subrange(from as int, end as int)),
        end < digits.len() ==> digits@[end as int] != '0',
{
    let mut i: usize = from;
    while i < digits.len() && digits[i] == '0'
        invariant
            from <= i <= digits.len(),
            all_zeros(digits@.subrange(from as int, i as int)),
        decreases digits.len() - i,
    {
        proof {
            let longer = digits@.subrange(from as int, i + 1);
            assert forall|j: int| 0 <= j < longer.len() implies #[trigger] longer[j] == '0' by {
                if j < i - from {
                    assert(longer[j] == digits@.subrange(from as int, i as int)[j]);
                }
            }
        }
        i = i + 1;
    }
    i
}

/// The value of the digits from `from` on, or `cap` if it is not below
/// `cap`.
fn capped_value(chars: &Vec<char>, from: usize, cap: u128) -> (v: u128)
    requires
        from <= chars.len(),
        all_digits(chars@.skip(from as int)),
        cap <= 0x1000_0000_0000_0000_0000,
    ensures
        v == if digits_value(chars@.skip(from as int)) < cap {
            digits_value(chars@.skip(from as int)) as u128
        } else {
            cap
        },
{
    let n = chars.len();
    let ghost body = chars@.skip(from as int);
    let mut value: u128 = 0;
    let mut i: usize = from;
    proof {
        assert(body.take(0) == Seq::<char>::empty());
    }
    while i < n
        invariant
            from <= i <= n,
            n == chars.len(),
            body == chars@.skip(from as int),
            all_digits(body),
            cap <= 0x1000_0000_0000_0000_0000,
            value <= cap,
            value == if digits_value(body.take(i - from)) < cap {
                digits_value(body.take(i - from)) as u128
            } else {
                cap
            },
        decreases n - i,
    {
        let c = chars[i];
        proof {
            assert(is_digit(body[i - from]));
            assert(body.take(i - from + 1).drop_last() == body.take(i - from));
            assert(body.take(i - from + 1).last() == c);
        }
        let d = digit_of(c);
        if value < cap {
            value = value * 10 + (d as u128);
            if value > cap {
                value = cap;
            }
        }
        i = i + 1;
    }
    proof {
        assert(body.take(n - from) == body);
    }
    value
}

/// The exponent that stands at `at`: whether it is written with a `-`, and
/// its size, or `cap` if that is not below `cap`.
fn exponent_at(chars: &Vec<char>, at: usize, cap: u128) -> (r: (bool, u128))
    requires
        at <= chars.len(),
        at == chars.len() || is_exponent(chars@.skip(at as int)),
        cap <= 0x1000_0000_0000_0000_0000,
    ensures
        ({
            let e = exponent_of(chars@.skip(at as int));
            let size = if e < 0 { -e } else { e };
            &&& r.0 ==> e <= 0
            &&& !r.0 ==> e >= 0
            &&& r.1 == if size < cap { size as u128 } else { cap }
        }),
{
    let n = chars.len();
    let ghost rest = chars@.skip(at as int);
    if at == n {
        return (false, 0);
    }
    proof {
        assert(rest.skip(1) == chars@.skip(at + 1));
        assert(unsigned(rest.skip(1)).len() > 0);
    }
    let negative = chars[at + 1] == '-';
    let signed = negative || chars[at + 1] == '+';
    let start: usize = if signed { at + 2 } else { at + 1 };
    proof {
        if signed {
            assert(rest.skip(1).skip(1) == chars@.skip(at + 2));
            assert(rest.skip(2) == chars@.skip(at + 2));
        }
        assert(chars@.skip(start as int) == unsigned(rest.skip(1)));
    }
    let size = capped_value(chars, start, cap);
    (negative, size)
}

/// Whether the characters are a number between 0 and 1, as
/// [`in_unit_interval`] says.
fn in_unit_interval_chars(chars: &Vec<char>) -> (r: bool)
    ensures
        r == in_unit_interval(chars@),
{
    let n = chars.len();
    let negative = n > 0 && chars[0] == '-';
    let signed = negative || (n > 0 && chars[0] == '+');
    let from: usize = if signed { 1 } else { 0 };
    let ghost u = chars@.skip(from as int);
    proof {
        assert(chars@.skip(0) == chars@);
        assert(u == unsigned(chars@));
    }
    if !is_number_at(chars, from) {
        return false;
    }
    let (digits, fraction, rest_at) = digits_at(chars, from);
    let first = zeros_end(&digits, 0);
    let ghost sig = digits@.skip(first as int);
    let ghost mantissa = digits_value(digits@);
    proof {
        assert(digits@.subrange(0, first as int) == digits@.take(first as int));
        lemma_value_zero(digits@);
        lemma_leading_zeros(digits@, first as int);
        if first == digits.len() {
            assert(digits@.take(first as int) == digits@);
        }
    }
    if first == digits.len() {
        return true;
    }
    proof {
        assert(digits@[first as int] != '0');
        assert forall|j: int| 0 <= j < sig.len() implies is_digit(#[trigger] sig[j]) by {
            assert(sig[j] == digits@[first + j]);
        }
        lemma_at_most_power(sig, 0);
        assert(mantissa >= 1);
    }
    if negative {
        return false;
    }
    let cap: u128 = 0x40_0000_0000_0000_0000;
    let (down, size) = exponent_at(chars, rest_at, cap);
    let ghost e = exponent_of(parts_of(u).rest);
    let ghost scale = e - fraction;
    let d: u128 = (digits.len() - first) as u128;
    let j: u128 = if down {
        if size == cap {
            proof {
                lemma_at_most_power(sig, (-scale) as nat);
            }
            return true;
        }
        (fraction as u128) + size
    } else {
        if size == cap || size > (fraction as u128) {
            proof {
                lemma_pow10_grows(1, scale as nat);
                assert(pow10(1) == 10) by {
                    assert(pow10(0) == 1);
                }
                let p = pow10(scale as nat);
                assert(mantissa * p >= p) by (nonlinear_arith)
                    requires
                        mantissa >= 1,
                        p >= 1,
                ;
            }
            return false;
        }
        (fraction as u128) - size
    };
    proof {
        assert(j == -scale);
        lemma_at_most_power(sig, j as nat);
        if scale == 0 {
            assert(pow10(0) == 1);
            assert(mantissa * 1 == mantissa);
        }
        assert(at_most_one(mantissa, scale) == (mantissa <= pow10(j as nat)));
    }
    if d <= j {
        true
    } else if d == j + 1 {
        let end = zeros_end(&digits, first + 1);
        proof {
            assert(sig.skip(1) == digits@.skip(first + 1));
            if end == digits.len() {
                assert(digits@.subrange(first + 1, end as int) == sig.skip(1));
            } else {
                assert(sig.skip(1)[end - (first + 1)] != '0');
            }
        }
        digits[first] == '1' && end == digits.len()
    } else {
        false
    }
}

/// A decimal number, kept as it was written. Its text is always one that
/// `f32` and `f64` read from a string without error: see [`is_decimal`].
#[derive(Debug)]
pub struct Decimal {
    text: String,
}

impl View for Decimal {
    type V = Seq<char>;

    closed spec fn view(&self) -> Seq<char> {
        self.text@
    }
}

impl Decimal {
    #[verifier::type_invariant]
    spec fn well_formed(self) -> bool {
        is_decimal(self.text@)
    }

    /// Keeps `s` where it is a decimal number, and gives nothing where it is
    /// not.
    pub fn parse(s: &str) -> (r: Option<Decimal>)
        ensures
            view_of(r) == if is_decimal(s@) { Some(s@) } else { None::<Seq<char>> },
    {
        let chars = chars_of(s);
        if is_decimal_chars(&chars) {
            Some(Decimal { text: s.to_owned() })
        } else {
            None
        }
    }

    /// The number 1, written `1`.
    pub fn one() -> (d: Decimal)
        ensures
            d@ == "1"@,
    {
        proof {
            reveal_strlit("1");
            let s = "1"@;
            assert(leading_digits(s.skip(1)) == 0);
            assert(leading_digits(s) == 1);
            assert(is_number(s));
        }
        Decimal { text: "1".to_owned() }
    }

    /// The number 0, written `0`.
    pub fn zero() -> (d: Decimal)
        ensures
            d@ == "0"@,
    {
        proof {
            reveal_strlit("0");
            let s = "0"@;
            assert(leading_digits(s.skip(1)) == 0);
            assert(leading_digits(s) == 1);
            assert(is_number(s));
        }
        Decimal { text: "0".to_owned() }
    }

    /// Whether the number lies between 0 and 1, both included; see
    /// [`in_unit_interval`].
    pub fn is_in_unit_interval(&self) -> (r: bool)
        ensures
            r == in_unit_interval(self@),
    {
        let chars = chars_of(self.text.as_str());
        in_unit_interval_chars(&chars)
    }

    /// The number as it was written.
    pub fn as_str(&self) -> (s: &str)
        ensures
            s@ == self@,
            is_decimal(s@),
    {
        proof {
            use_type_invariant(self);
        }
        self.text.as_str()
    }
}

} // verus!
