//! Small shared lemmas about sequences and the deep views of containers.

use vstd::prelude::*;

use std::collections::VecDeque;

verus! {

/// Pushing onto a vector pushes the element's deep view onto the vector's
/// deep view.
pub proof fn lemma_vec_deep_view_push<T: DeepView>(pre: Vec<T>, post: Vec<T>, x: T)
    requires
        post@ == pre@.push(x),
    ensures
        post.deep_view() == pre.deep_view().push(x.deep_view()),
{
    assert(post.deep_view() =~= pre.deep_view().push(x.deep_view()));
}

/// Appending one vector to another concatenates their deep views.
pub proof fn lemma_vec_deep_view_concat<T: DeepView>(pre: Vec<T>, post: Vec<T>, other: Vec<T>)
    requires
        post@ == pre@ + other@,
    ensures
        post.deep_view() == pre.deep_view() + other.deep_view(),
{
    assert(post.deep_view() =~= pre.deep_view() + other.deep_view());
}

/// Pushing onto a deque pushes the element's deep view onto the deque's
/// deep view.
pub proof fn lemma_deque_deep_view_push<T: DeepView>(pre: VecDeque<T>, post: VecDeque<T>, x: T)
    requires
        post@ == pre@.push(x),
    ensures
        post.deep_view() == pre.deep_view().push(x.deep_view()),
{
    assert(post.deep_view() =~= pre.deep_view().push(x.deep_view()));
}

/// An empty vector has an empty deep view.
pub proof fn lemma_vec_deep_view_empty<T: DeepView>(v: Vec<T>)
    requires
        v@.len() == 0,
    ensures
        v.deep_view() == Seq::<T::V>::empty(),
{
    assert(v.deep_view() =~= Seq::<T::V>::empty());
}

/// A subrange one longer is the subrange plus the next element.
pub proof fn lemma_subrange_push(s: Seq<char>, p0: int, before: int)
    requires
        0 <= p0 <= before < s.len(),
    ensures
        s.subrange(p0, before + 1) == s.subrange(p0, before).push(s[before]),
{
    assert(s.subrange(p0, before + 1) =~= s.subrange(p0, before).push(s[before]));
}

} // verus!
