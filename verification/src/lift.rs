//! Views of the standard containers that hold values of this library, and
//! what holds of sequences that are filtered and mapped.

use vstd::prelude::*;

verus! {

/// The views of the elements of a sequence, in order.
pub open spec fn views<T: View>(s: Seq<T>) -> Seq<T::V> {
    Seq::new(s.len(), |i: int| s[i]@)
}

/// The view of what an option holds.
pub open spec fn option_view<T: View>(o: Option<T>) -> Option<T::V> {
    match o {
        Some(value) => Some(value@),
        None => None,
    }
}

/// The view of what a result holds.
pub open spec fn result_view<T: View, E: View>(r: Result<T, E>) -> Result<T::V, E::V> {
    match r {
        Ok(value) => Ok(value@),
        Err(error) => Err(error@),
    }
}

/// The views of a sequence that grew by one element.
pub proof fn lemma_views_push<T: View>(s: Seq<T>, last: T)
    ensures
        views(s.push(last)) == views(s).push(last@),
{
    assert(views(s.push(last)) =~= views(s).push(last@));
}

/// What nothing is kept of is empty.
pub proof fn lemma_filter_map_none<A, B>(s: Seq<A>, f: spec_fn(A) -> Option<B>)
    requires
        forall|i: int| 0 <= i < s.len() ==> f(#[trigger] s[i]) is None,
    ensures
        s.filter_map(f) == Seq::<B>::empty(),
    decreases s.len(),
{
    if s.len() > 0 {
        assert forall|i: int| 0 <= i < s.drop_last().len() implies f(
            #[trigger] s.drop_last()[i],
        ) is None by {
            assert(f(s[i]) is None);
        }
        lemma_filter_map_none(s.drop_last(), f);
        assert(f(s[s.len() - 1]) is None);
    }
}

/// What something is kept of is not empty.
pub proof fn lemma_filter_map_some<A, B>(s: Seq<A>, f: spec_fn(A) -> Option<B>, i: int)
    requires
        0 <= i < s.len(),
        f(s[i]) is Some,
    ensures
        s.filter_map(f).len() > 0,
    decreases s.len(),
{
    if i < s.len() - 1 {
        assert(s.drop_last()[i] == s[i]);
        lemma_filter_map_some(s.drop_last(), f, i);
    }
}

/// Where everything is kept, the result has an element for each element.
pub proof fn lemma_filter_map_all<A, B>(s: Seq<A>, f: spec_fn(A) -> Option<B>)
    requires
        forall|i: int| 0 <= i < s.len() ==> f(#[trigger] s[i]) is Some,
    ensures
        s.filter_map(f).len() == s.len(),
        forall|i: int| 0 <= i < s.len() ==> f(#[trigger] s[i]) == Some(s.filter_map(f)[i]),
    decreases s.len(),
{
    if s.len() > 0 {
        assert forall|i: int| 0 <= i < s.drop_last().len() implies f(
            #[trigger] s.drop_last()[i],
        ) is Some by {
            assert(f(s[i]) is Some);
        }
        lemma_filter_map_all(s.drop_last(), f);
        assert(f(s[s.len() - 1]) is Some);
        assert forall|i: int| 0 <= i < s.len() implies f(#[trigger] s[i]) == Some(
            s.filter_map(f)[i],
        ) by {
            if i < s.len() - 1 {
                assert(f(s.drop_last()[i]) == Some(s.drop_last().filter_map(f)[i]));
            }
        }
    }
}

/// Every element that is kept comes from an element.
pub proof fn lemma_filter_map_source<A, B>(s: Seq<A>, f: spec_fn(A) -> Option<B>, k: int)
    requires
        0 <= k < s.filter_map(f).len(),
    ensures
        exists|i: int| 0 <= i < s.len() && f(#[trigger] s[i]) == Some(s.filter_map(f)[k]),
    decreases s.len(),
{
    if s.len() > 0 {
        let shorter = s.drop_last();
        if k < shorter.filter_map(f).len() {
            lemma_filter_map_source(shorter, f, k);
            let i = choose|i: int|
                0 <= i < shorter.len() && f(#[trigger] shorter[i]) == Some(
                    shorter.filter_map(f)[k],
                );
            assert(f(s[i]) == Some(s.filter_map(f)[k]));
        } else {
            assert(f(s[s.len() - 1]) == Some(s.filter_map(f)[k]));
        }
    }
}

} // verus!
