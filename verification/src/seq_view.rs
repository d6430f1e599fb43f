//! The view of a vector of viewable values, and the lemmas the library's
//! loops need about it.

use vstd::prelude::*;

verus! {

/// The sequence of views of the elements.
pub open spec fn view_seq<T: View>(s: Seq<T>) -> Seq<T::V> {
    s.map_values(|t: T| t@)
}

/// Pushing an element whose view equals `s[i]@` onto a sequence that views
/// as `view_seq(s).subrange(0, i)` extends the viewed prefix by one.
pub proof fn lemma_view_seq_push<T: View>(s: Seq<T>, v: Seq<T>, x: T, i: int)
    requires
        0 <= i < s.len(),
        view_seq(v) == view_seq(s).subrange(0, i),
        x@ == s[i]@,
    ensures
        view_seq(v.push(x)) == view_seq(s).subrange(0, i + 1),
{
    assert(view_seq(v).len() == v.len());
    assert(view_seq(s).subrange(0, i).len() == i);
    assert(view_seq(v.push(x)) =~= view_seq(s).subrange(0, i + 1));
}

/// The full prefix is the whole viewed sequence.
pub proof fn lemma_view_seq_whole<T: View>(s: Seq<T>)
    ensures
        view_seq(s).subrange(0, s.len() as int) == view_seq(s),
{
    assert(view_seq(s).len() == s.len());
    assert(view_seq(s).subrange(0, s.len() as int) =~= view_seq(s));
}

/// The empty prefix is the view of the empty sequence.
pub proof fn lemma_view_seq_empty<T: View>(s: Seq<T>, v: Seq<T>)
    requires
        v.len() == 0,
    ensures
        view_seq(v) == view_seq(s).subrange(0, 0),
{
    assert(view_seq(v) =~= view_seq(s).subrange(0, 0));
}

/// The element views of a viewed sequence.
pub proof fn lemma_view_seq_index<T: View>(s: Seq<T>, i: int)
    requires
        0 <= i < s.len(),
    ensures
        view_seq(s).len() == s.len(),
        view_seq(s)[i] == s[i]@,
{
}

/// Pushing any element appends its view.
pub proof fn lemma_view_seq_push_any<T: View>(v: Seq<T>, x: T)
    ensures
        view_seq(v.push(x)) == view_seq(v).push(x@),
{
    assert(view_seq(v).len() == v.len());
    assert(view_seq(v.push(x)) =~= view_seq(v).push(x@));
}

} // verus!
