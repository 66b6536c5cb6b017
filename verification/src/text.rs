//! Texts as sequences of characters: comparing, and cutting at a separator.
use vstd::prelude::*;
use crate::lift::{lemma_views_push, views};

verus! {

/// Compares two strings with `==` of `str`, which holds exactly when both
/// are made of the same characters in the same order.
#[verifier::external_body]
pub(crate) fn same_text(a: &str, b: &str) -> (same: bool)
    ensures
        same == (a@ == b@),
{
    a == b
}

/// The characters of a string, in order.
pub fn chars_of(s: &str) -> (chars: Vec<char>)
    ensures
        chars@ == s@,
{
    let mut chars: Vec<char> = Vec::new();
    for c in it: s.chars()
        invariant
            it.seq() == s@,
            chars@ == it.seq().take(it.index()),
    {
        chars.push(c);
    }
    chars
}

/// The place of the first `sep` in `s`, or the length of `s` if it has none.
pub open spec fn first_index(s: Seq<char>, sep: char) -> int
    decreases s.len(),
{
    if s.len() == 0 || s[0] == sep {
        0
    } else {
        1 + first_index(s.skip(1), sep)
    }
}

/// The pieces of `s` between the occurrences of `sep`. There is always at
/// least one piece; two separators in a row, or one at either end, give an
/// empty piece.
pub open spec fn split(s: Seq<char>, sep: char) -> Seq<Seq<char>>
    decreases s.len(),
{
    let k = first_index(s, sep);
    if 0 <= k < s.len() {
        seq![s.take(k)] + split(s.skip(k + 1), sep)
    } else {
        seq![s]
    }
}

/// `first_index` is the place of the first separator: none stands before
/// it, and one stands at it unless it is the length.
pub proof fn lemma_first_index(s: Seq<char>, sep: char)
    ensures
        0 <= first_index(s, sep) <= s.len(),
        forall|i: int| 0 <= i < first_index(s, sep) ==> s[i] != sep,
        first_index(s, sep) < s.len() ==> s[first_index(s, sep)] == sep,
    decreases s.len(),
{
    if s.len() == 0 || s[0] == sep {
    } else {
        let t = s.skip(1);
        lemma_first_index(t, sep);
        assert forall|i: int| 0 <= i < first_index(s, sep) implies s[i] != sep by {
            if i > 0 {
                assert(s[i] == t[i - 1]);
            }
        }
        if first_index(s, sep) < s.len() {
            assert(s[first_index(s, sep)] == t[first_index(t, sep)]);
        }
    }
}

/// A place with no separator before it, which holds one or is the length,
/// is `first_index`.
pub proof fn lemma_first_index_is(s: Seq<char>, sep: char, k: int)
    requires
        0 <= k <= s.len(),
        forall|i: int| 0 <= i < k ==> s[i] != sep,
        k < s.len() ==> s[k] == sep,
    ensures
        first_index(s, sep) == k,
{
    lemma_first_index(s, sep);
}

/// Cuts `s` at each `sep`, as [`split`] says.
pub fn split_text<'a>(s: &'a str, sep: char) -> (pieces: Vec<&'a str>)
    ensures
        views(pieces@) == split(s@, sep),
{
    let chars = chars_of(s);
    let n = chars.len();
    let mut pieces: Vec<&'a str> = Vec::new();
    let mut start: usize = 0;
    let mut i: usize = 0;
    proof {
        assert(s@.skip(0) == s@);
        assert(views(pieces@) + split(s@, sep) == split(s@, sep));
    }
    while i < n
        invariant
            chars@ == s@,
            n == chars.len(),
            start <= i <= n,
            forall|j: int| start <= j < i ==> s@[j] != sep,
            split(s@, sep) == views(pieces@) + split(s@.skip(start as int), sep),
        decreases n - i,
    {
        if chars[i] == sep {
            let piece = s.substring_char(start, i);
            proof {
                let tail = s@.skip(start as int);
                lemma_first_index_is(tail, sep, i - start);
                assert(tail.take(i - start) == s@.subrange(start as int, i as int));
                assert(tail.skip(i - start + 1) == s@.skip(i + 1));
                lemma_views_push(pieces@, piece);
                assert(views(pieces@) + (seq![piece@] + split(s@.skip(i + 1), sep))
                    == views(pieces@).push(piece@) + split(s@.skip(i + 1), sep));
            }
            pieces.push(piece);
            start = i + 1;
        }
        i = i + 1;
    }
    let piece = s.substring_char(start, n);
    proof {
        let tail = s@.skip(start as int);
        lemma_first_index_is(tail, sep, n - start);
        assert(tail == s@.subrange(start as int, n as int));
        lemma_views_push(pieces@, piece);
        assert(views(pieces@) + seq![piece@] == views(pieces@).push(piece@));
    }
    pieces.push(piece);
    pieces
}

} // verus!
