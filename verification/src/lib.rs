//! Compiler for a small declarative pattern language: a template string that
//! mixes literal text with named or positional field references is turned into
//! a formatter plan and a parser plan for a record or union schema.

pub mod bounds;
pub mod diag;
pub mod fmtplan;
pub mod format;
pub mod interp;
pub mod key;
pub mod laws;
pub mod plan;
pub mod prog;
pub mod builder;
pub mod rawregex;
pub mod rx;
pub mod schema;
pub mod style;
pub mod text;

use vstd::prelude::*;

verus! {

/// A vector's deep view is its elements' deep views, index by index.
pub proof fn lemma_vec_deep_view_is<T: DeepView>(v: Vec<T>)
    ensures
        v.deep_view().len() == v@.len(),
        forall|k: int| 0 <= k < v@.len() ==> #[trigger] v.deep_view()[k] == v@[k].deep_view(),
{
}

/// Pushing one element appends its deep view to a vector's deep view.
pub proof fn lemma_vec_push_deep_view<T: DeepView>(new: Vec<T>, prev: Vec<T>, x: T)
    requires
        new@ == prev@.push(x),
    ensures
        new.deep_view() =~= prev.deep_view().push(x.deep_view()),
{
    let m1 = new.deep_view();
    let m2 = prev.deep_view().push(x.deep_view());
    assert(m1 == Seq::new(new@.len(), |i: int| new@[i].deep_view()));
    assert(prev.deep_view() == Seq::new(prev@.len(), |i: int| prev@[i].deep_view()));
    assert forall|k: int| 0 <= k < m1.len() implies m1[k] == m2[k] by {
        if k < prev@.len() {
            assert(new@[k] == prev@[k]);
            assert(m2[k] == prev.deep_view()[k]);
        } else {
            assert(new@[k] == x);
        }
    }
}

} // verus!
