//! The views of values that stand in a sequence, or that may be absent.
use vstd::prelude::*;

verus! {

/// The views of a sequence of values, one for one.
pub open spec fn views<T: View>(items: Seq<T>) -> Seq<T::V> {
    Seq::new(items.len(), |i: int| items[i]@)
}

/// The view of a value that may be absent.
pub open spec fn view_of<T: View>(item: Option<T>) -> Option<T::V> {
    match item {
        Some(value) => Some(value@),
        None => None,
    }
}

/// Appending a value appends its view.
pub proof fn lemma_views_push<T: View>(items: Seq<T>, last: T)
    ensures
        views(items.push(last)) == views(items).push(last@),
{
    assert(views(items.push(last)) =~= views(items).push(last@));
}

/// A sequence starts with itself.
pub proof fn lemma_prefix_of_itself<A>(s: Seq<A>)
    ensures
        s.is_prefix_of(s),
{
    assert(s.subrange(0, s.len() as int) == s);
}

/// A sequence starts with what it was before the last value was put
/// behind it.
pub proof fn lemma_prefix_of_push<A>(s: Seq<A>, last: A)
    ensures
        s.is_prefix_of(s.push(last)),
{
    assert(s.push(last).subrange(0, s.len() as int) == s);
}

/// What starts a start of a sequence starts the sequence.
pub proof fn lemma_prefix_twice<A>(a: Seq<A>, b: Seq<A>, c: Seq<A>)
    requires
        a.is_prefix_of(b),
        b.is_prefix_of(c),
    ensures
        a.is_prefix_of(c),
{
    assert(a == b.subrange(0, a.len() as int));
    assert(b == c.subrange(0, b.len() as int));
    assert(a == c.subrange(0, a.len() as int));
}

} // verus!
