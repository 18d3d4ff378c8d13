//! Views of lists and options, element by element.
use vstd::prelude::*;

verus! {

/// The views of a list's elements.
pub open spec fn all<T: View>(s: Seq<T>) -> Seq<T::V> {
    Seq::new(s.len(), |i: int| s[i]@)
}

/// The view of what an option holds.
pub open spec fn opt<T: View>(o: Option<T>) -> Option<T::V> {
    match o {
        Some(x) => Some(x@),
        None => None,
    }
}

/// The view of what a result holds.
pub open spec fn res<T: View, E: View>(r: Result<T, E>) -> Result<T::V, E::V> {
    match r {
        Ok(x) => Ok(x@),
        Err(e) => Err(e@),
    }
}

/// Appending an element appends its view.
pub broadcast proof fn lemma_views_push<T: View>(s: Seq<T>, x: T)
    ensures
        #[trigger] all(s.push(x)) == all(s).push(x@),
{
    assert(all(s.push(x)) =~= all(s).push(x@));
}

/// Appending a list appends its views.
pub broadcast proof fn lemma_views_concat<T: View>(s: Seq<T>, t: Seq<T>)
    ensures
        #[trigger] all(s + t) == all(s) + all(t),
{
    assert(all(s + t) =~= all(s) + all(t));
}

/// An empty list has no views.
pub broadcast proof fn lemma_views_empty<T: View>()
    ensures
        #[trigger] all(Seq::<T>::empty()) == Seq::<T::V>::empty(),
{
    assert(all(Seq::<T>::empty()) =~= Seq::<T::V>::empty());
}

/// Replacing an element replaces its view.
pub broadcast proof fn lemma_views_update<T: View>(s: Seq<T>, i: int, x: T)
    requires
        0 <= i < s.len(),
    ensures
        #[trigger] all(s.update(i, x)) == all(s).update(i, x@),
{
    assert(all(s.update(i, x)) =~= all(s).update(i, x@));
}

pub broadcast group group_views {
    lemma_views_push,
    lemma_views_concat,
    lemma_views_empty,
    lemma_views_update,
}

} // verus!
