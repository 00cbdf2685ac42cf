//! Small bridges between a vector's element-wise deep view and the
//! sequence operations the proofs in this crate step through.

use vstd::prelude::*;

verus! {

broadcast use vstd::std_specs::vec::group_vec_axioms, vstd::seq::group_seq_axioms;

/// The element-wise deep view of a run of values.
pub open spec fn dv_seq<T: DeepView>(s: Seq<T>) -> Seq<T::V> {
    Seq::new(
        s.len(),
        |i: int|
            if 0 <= i < s.len() {
                s[i].deep_view()
            } else {
                arbitrary()
            },
    )
}

/// A vector's deep view is the element-wise deep view of its contents.
pub proof fn lemma_dv_eq<T: DeepView>(v: &Vec<T>)
    ensures
        v.deep_view() == dv_seq(v@),
{
    assert(v.deep_view().len() == dv_seq(v@).len());
    assert forall|i: int| 0 <= i < v@.len() implies v.deep_view()[i] == dv_seq(v@)[i] by {
        assert(v.deep_view()[i] == v@[i].deep_view());
    }
    assert(v.deep_view() =~= dv_seq(v@));
}

/// Pushing an element pushes its deep view.
pub proof fn lemma_dv_seq_push<T: DeepView>(s: Seq<T>, x: T)
    ensures
        dv_seq(s.push(x)) == dv_seq(s).push(x.deep_view()),
{
    assert forall|i: int|
        0 <= i < s.len() + 1 implies dv_seq(s.push(x))[i] == dv_seq(s).push(x.deep_view())[i] by {
        if i < s.len() {
            assert(s.push(x)[i] == s[i]);
        } else {
            assert(s.push(x)[i] == x);
        }
    }
    assert(dv_seq(s.push(x)) =~= dv_seq(s).push(x.deep_view()));
}

/// Dropping the last element drops the last deep view.
pub proof fn lemma_dv_seq_drop_last<T: DeepView>(s: Seq<T>)
    requires
        s.len() > 0,
    ensures
        dv_seq(s.drop_last()) == dv_seq(s).drop_last(),
        s.last().deep_view() == dv_seq(s).last(),
{
    assert forall|i: int|
        0 <= i < s.len() - 1 implies dv_seq(s.drop_last())[i] == dv_seq(s).drop_last()[i] by {
        assert(s.drop_last()[i] == s[i]);
    }
    assert(dv_seq(s.drop_last()) =~= dv_seq(s).drop_last());
}

/// Concatenation concatenates the deep views.
pub proof fn lemma_dv_seq_append<T: DeepView>(a: Seq<T>, b: Seq<T>)
    ensures
        dv_seq(a + b) == dv_seq(a) + dv_seq(b),
{
    assert forall|i: int|
        0 <= i < a.len() + b.len() implies dv_seq(a + b)[i] == (dv_seq(a) + dv_seq(b))[i] by {
        if i < a.len() {
            assert((a + b)[i] == a[i]);
        } else {
            assert((a + b)[i] == b[i - a.len()]);
        }
    }
    assert(dv_seq(a + b) =~= dv_seq(a) + dv_seq(b));
}

} // verus!
