//! Facts about lists that are made by laying out a few items for each
//! element of another list.

use vstd::prelude::*;

verus! {

/// Nothing is laid out for no elements.
pub proof fn lemma_flat_map_empty<A, B>(f: spec_fn(A) -> Seq<B>)
    ensures
        Seq::<A>::empty().flat_map(f) == Seq::<B>::empty(),
{
    assert(Seq::<A>::empty().map_values(f) =~= Seq::<Seq<B>>::empty());
}

/// What is laid out for the first `i + 1` elements is what is laid out for
/// the first `i`, followed by the items of the next one.
pub proof fn lemma_flat_map_take<A, B>(s: Seq<A>, f: spec_fn(A) -> Seq<B>, i: int)
    requires
        0 <= i < s.len(),
    ensures
        s.take(i + 1).flat_map(f) == s.take(i).flat_map(f) + f(s[i]),
{
    s.take(i).lemma_flat_map_push(f, s[i]);
    assert(s.take(i).push(s[i]) =~= s.take(i + 1));
}

/// If every item that is laid out for any element has a property, then
/// every item of the whole list has it.
pub proof fn lemma_flat_map_all<A, B>(s: Seq<A>, f: spec_fn(A) -> Seq<B>, p: spec_fn(B) -> bool)
    requires
        forall|x: A, i: int| 0 <= i < f(x).len() ==> p(#[trigger] f(x)[i]),
    ensures
        forall|i: int| 0 <= i < s.flat_map(f).len() ==> p(#[trigger] s.flat_map(f)[i]),
    decreases s.len(),
{
    if s.len() == 0 {
        lemma_flat_map_empty(f);
        assert(s =~= Seq::empty());
    } else {
        let front = s.drop_last();
        lemma_flat_map_all(front, f, p);
        front.lemma_flat_map_push(f, s.last());
        assert(front.push(s.last()) =~= s);
        assert forall|i: int| 0 <= i < s.flat_map(f).len() implies p(
            #[trigger] s.flat_map(f)[i],
        ) by {
            if i >= front.flat_map(f).len() {
                assert(s.flat_map(f)[i] == f(s.last())[i - front.flat_map(f).len()]);
            }
        }
    }
}

} // verus!
