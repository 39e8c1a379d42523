//! Vectors and what they hold.

use vstd::prelude::*;

verus! {

/// Appends an item.
pub fn push_item<T: DeepView>(out: &mut Vec<T>, item: T)
    ensures
        final(out).deep_view() == old(out).deep_view().push(item.deep_view()),
        final(out)@ == old(out)@.push(item),
{
    out.push(item);
    assert(out.deep_view() == old(out).deep_view().push(item.deep_view()));
}

/// An empty vector.
pub fn no_items<T: DeepView>() -> (r: Vec<T>)
    ensures
        r.deep_view() == Seq::<T::V>::empty(),
        r@ == Seq::<T>::empty(),
{
    let r: Vec<T> = Vec::new();
    assert(r.deep_view() == Seq::<T::V>::empty());
    r
}

/// A byte vector holds its bytes.
pub proof fn lemma_bytes_view(v: Vec<u8>)
    ensures
        v.deep_view() == v@,
{
    assert(v.deep_view() =~= v@);
}

} // verus!
