//! Small facts about deep views of vectors, shared by the pipeline stages.

use vstd::prelude::*;

verus! {

/// Pushes onto a vector, stated over its deep view.
pub fn push_deep<T: DeepView>(v: &mut Vec<T>, x: T)
    ensures
        final(v).deep_view() == old(v).deep_view().push(x.deep_view()),
        final(v)@ == old(v)@.push(x),
{
    v.push(x);
    proof {
        assert(v.deep_view() =~= old(v).deep_view().push(x.deep_view()));
    }
}

/// The deep view reads one element at a time.
pub proof fn lemma_deep_view_index<T: DeepView>(v: Vec<T>, i: int)
    requires
        0 <= i < v@.len(),
    ensures
        v.deep_view()[i] == v@[i].deep_view(),
{
}

} // verus!
