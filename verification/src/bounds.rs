//! Bound-set accumulation: the minimal per-type capability obligations a
//! compiled plan requires. A scope with an explicit bound list stops
//! automatic inference (`can_extend` false) unless the list re-enables it
//! with its `..` marker; a child scope's collected obligations merge into the
//! parent only while the parent itself is still extendable.

use vstd::prelude::*;
use crate::schema::{Bound, BoundV, clone_bounds};

verus! {

/// The capability a bound obliges a type to support: rendering to text, or
/// parsing from text.
#[derive(Clone, Copy, Debug, PartialEq, Eq, Structural)]
pub enum Capability {
    Format,
    Parse,
}

/// One entry of a built where-clause: a verbatim user predicate, or a type
/// obliged to support a capability.
#[derive(Debug)]
pub enum WherePred {
    Raw(String),
    Obliged(String, Capability),
}

/// The mathematical value of a where-clause entry.
pub enum WherePredV {
    Raw(Seq<char>),
    Obliged(Seq<char>, Capability),
}

impl View for WherePred {
    type V = WherePredV;

    open spec fn view(&self) -> WherePredV {
        match self {
            WherePred::Raw(s) => WherePredV::Raw(s@),
            WherePred::Obliged(s, c) => WherePredV::Obliged(s@, *c),
        }
    }
}

impl DeepView for WherePred {
    type V = WherePredV;

    open spec fn deep_view(&self) -> WherePredV {
        self.view()
    }
}

/// Accumulated bounds for one scope: obliged types, verbatim predicates, and
/// whether automatic inference is still allowed here.
#[derive(Debug)]
pub struct Bounds {
    pub ty: Vec<String>,
    pub pred: Vec<String>,
    pub can_extend: bool,
}

/// The mathematical value of a bound accumulator.
pub struct BoundsV {
    pub ty: Seq<Seq<char>>,
    pub pred: Seq<Seq<char>>,
    pub can_extend: bool,
}

impl View for Bounds {
    type V = BoundsV;

    open spec fn view(&self) -> BoundsV {
        BoundsV { ty: self.ty.deep_view(), pred: self.pred.deep_view(), can_extend: self.can_extend }
    }
}

/// The effect of one explicit bound entry on an accumulator: a type or a
/// predicate is recorded; the `..` marker re-enables inference.
pub open spec fn spec_bounds_push(b: BoundsV, bound: BoundV) -> BoundsV {
    match bound {
        BoundV::Type(t) => BoundsV { ty: b.ty.push(t), pred: b.pred, can_extend: b.can_extend },
        BoundV::Pred(p) => BoundsV { ty: b.ty, pred: b.pred.push(p), can_extend: b.can_extend },
        BoundV::Default => BoundsV { ty: b.ty, pred: b.pred, can_extend: true },
    }
}

/// An empty accumulator.
pub open spec fn spec_bounds_new(can_extend: bool) -> BoundsV {
    BoundsV { ty: Seq::empty(), pred: Seq::empty(), can_extend }
}

/// The accumulator a scope starts with: fully extendable when no explicit
/// list is given; otherwise the listed entries, with inference off unless the
/// list holds the `..` marker.
pub open spec fn spec_bounds_from_data(bound: Option<Seq<BoundV>>) -> BoundsV {
    match bound {
        Some(bs) => spec_bounds_push_all(spec_bounds_new(false), bs),
        None => spec_bounds_new(true),
    }
}

/// Entries applied left to right.
pub open spec fn spec_bounds_push_all(b: BoundsV, bs: Seq<BoundV>) -> BoundsV
    decreases bs.len(),
{
    if bs.len() == 0 {
        b
    } else {
        spec_bounds_push_all(spec_bounds_push(b, bs[0]), bs.skip(1))
    }
}

/// The accumulator a child scope starts with: its own explicit list while the
/// parent is extendable, else a closed accumulator.
pub open spec fn spec_bounds_child(parent: BoundsV, bound: Option<Seq<BoundV>>) -> BoundsV {
    if parent.can_extend {
        spec_bounds_from_data(bound)
    } else {
        spec_bounds_new(false)
    }
}

/// A child's collected obligations flow into an extendable parent and are
/// discarded by a non-extending one.
pub open spec fn spec_bounds_merge(parent: BoundsV, child: BoundsV) -> BoundsV {
    if parent.can_extend {
        BoundsV {
            ty: parent.ty + child.ty,
            pred: parent.pred + child.pred,
            can_extend: parent.can_extend,
        }
    } else {
        parent
    }
}

/// The built where-clause: the verbatim predicates, then each obliged type
/// under the given capability.
pub open spec fn spec_build_wheres(b: BoundsV, cap: Capability) -> Seq<WherePredV> {
    b.pred.map_values(|p: Seq<char>| WherePredV::Raw(p)) + b.ty.map_values(
        |t: Seq<char>| WherePredV::Obliged(t, cap),
    )
}

impl Bounds {
    /// An empty accumulator.
    pub fn new(can_extend: bool) -> (r: Bounds)
        ensures
            r@ == spec_bounds_new(can_extend),
    {
        let r = Bounds { ty: Vec::new(), pred: Vec::new(), can_extend };
        proof {
            assert(r@.ty =~= Seq::<Seq<char>>::empty());
            assert(r@.pred =~= Seq::<Seq<char>>::empty());
        }
        r
    }

    /// Records one explicit entry.
    pub fn push(&mut self, bound: Bound)
        ensures
            final(self)@ == spec_bounds_push(old(self)@, bound@),
    {
        match bound {
            Bound::Type(ty) => {
                let ghost tyg = ty;
                self.ty.push(ty);
                proof {
                    crate::lemma_vec_push_deep_view(self.ty, old(self).ty, tyg);
                }
            },
            Bound::Pred(pred) => {
                let ghost predg = pred;
                self.pred.push(pred);
                proof {
                    crate::lemma_vec_push_deep_view(self.pred, old(self).pred, predg);
                }
            },
            Bound::Default => {
                self.can_extend = true;
            },
        }
    }

    /// The accumulator a scope starts with, from its explicit list if any.
    pub fn from_data(bound: Option<Vec<Bound>>) -> (r: Bounds)
        ensures
            r@ == spec_bounds_from_data(bound.deep_view()),
    {
        if let Some(bound) = bound {
            let ghost boundsm = bound.deep_view();
            let mut bs = Bounds::new(false);
            let mut i: usize = 0;
            let n = bound.len();
            let mut it = bound;
            proof {
                assert(boundsm.skip(0) =~= boundsm);
            }
            while i < n
                invariant
                    i <= n,
                    n == it@.len(),
                    it.deep_view() == boundsm,
                    spec_bounds_push_all(bs@, boundsm.skip(i as int)) == spec_bounds_push_all(
                        spec_bounds_new(false),
                        boundsm,
                    ),
                decreases n - i,
            {
                let b = it[i].clone();
                proof {
                    assert(it.deep_view()[i as int] == it@[i as int].deep_view());
                    assert(b@ == boundsm[i as int]);
                    assert(boundsm.skip(i as int).skip(1) =~= boundsm.skip(i + 1 as int));
                    assert(boundsm.skip(i as int)[0] == boundsm[i as int]);
                }
                bs.push(b);
                i += 1;
            }
            proof {
                assert(boundsm.skip(n as int) =~= Seq::<BoundV>::empty());
            }
            bs
        } else {
            Bounds::new(true)
        }
    }

    /// Opens a child scope under this one.
    pub fn child(&self, bound: Option<Vec<Bound>>) -> (r: Bounds)
        ensures
            r@ == spec_bounds_child(self@, bound.deep_view()),
    {
        if self.can_extend {
            Bounds::from_data(bound)
        } else {
            Bounds::new(false)
        }
    }

    /// Closes a child scope: its obligations join this one while this one is
    /// extendable, and are dropped otherwise.
    pub fn merge_child(&mut self, child: Bounds)
        ensures
            final(self)@ == spec_bounds_merge(old(self)@, child@),
    {
        if self.can_extend {
            let ghost childg = child;
            let Bounds { ty, pred, can_extend: _ } = child;
            let mut ty = ty;
            let mut pred = pred;
            append_strings(&mut self.ty, ty);
            append_strings(&mut self.pred, pred);
            proof {
                assert(self@.ty == old(self)@.ty + childg@.ty);
                assert(self@.pred == old(self)@.pred + childg@.pred);
            }
        }
    }

    /// Builds the where-clause for one capability.
    pub fn build_wheres(self, cap: Capability) -> (r: Vec<WherePred>)
        ensures
            r.deep_view() == spec_build_wheres(self@, cap),
    {
        let ghost selfg = self;
        let Bounds { ty, pred, can_extend: _ } = self;
        let mut r: Vec<WherePred> = Vec::new();
        let mut i: usize = 0;
        let npred = pred.len();
        while i < npred
            invariant
                i <= npred,
                npred == pred@.len(),
                pred.deep_view() == selfg@.pred,
                r@.len() == i,
                forall|k: int|
                    0 <= k < i ==> (#[trigger] r@[k])@ == WherePredV::Raw(pred@[k]@),
            decreases npred - i,
        {
            r.push(WherePred::Raw(pred[i].clone()));
            i += 1;
        }
        let ghost npredg = r@.len();
        let mut j: usize = 0;
        let nty = ty.len();
        while j < nty
            invariant
                j <= nty,
                nty == ty@.len(),
                ty.deep_view() == selfg@.ty,
                pred.deep_view() == selfg@.pred,
                npredg == pred@.len(),
                r@.len() == npredg + j,
                forall|k: int|
                    0 <= k < npredg ==> (#[trigger] r@[k])@ == WherePredV::Raw(pred@[k]@),
                forall|k: int|
                    0 <= k < j ==> (#[trigger] r@[npredg + k])@ == WherePredV::Obliged(
                        ty@[k]@,
                        cap,
                    ),
            decreases nty - j,
        {
            r.push(WherePred::Obliged(ty[j].clone(), cap));
            j += 1;
        }
        proof {
            let m1 = r.deep_view();
            let m2 = spec_build_wheres(selfg@, cap);
            assert(m1 == Seq::new(r@.len(), |k: int| r@[k].deep_view()));
            assert(selfg@.ty == Seq::new(ty@.len(), |k: int| ty@[k].deep_view()));
            assert(selfg@.pred == Seq::new(pred@.len(), |k: int| pred@[k].deep_view()));
            assert(m1.len() == m2.len());
            assert forall|k: int| 0 <= k < m1.len() implies m1[k] == m2[k] by {
                assert(m1[k] == r@[k].deep_view());
                if k < npredg {
                    assert(r@[k]@ == WherePredV::Raw(pred@[k]@));
                    assert(m2[k] == WherePredV::Raw(selfg@.pred[k]));
                } else {
                    let kk = k - npredg;
                    assert(r@[npredg + kk]@ == WherePredV::Obliged(ty@[kk]@, cap));
                    assert(r@[k]@ == WherePredV::Obliged(ty@[kk]@, cap));
                    assert(m2[k] == WherePredV::Obliged(selfg@.ty[kk], cap));
                }
            }
            assert(m1 =~= m2);
        }
        r
    }
}

/// Moves the elements of `extra` to the end of `target`.
fn append_strings(target: &mut Vec<String>, extra: Vec<String>)
    ensures
        final(target).deep_view() == old(target).deep_view() + extra.deep_view(),
{
    let ghost t0 = target.deep_view();
    let ghost em = extra.deep_view();
    let n = extra.len();
    let mut i: usize = 0;
    let mut extra = extra;
    while i < n
        invariant
            i <= n,
            n == extra@.len(),
            extra.deep_view() == em,
            target.deep_view() =~= t0 + em.subrange(0, i as int),
        decreases n - i,
    {
        let ghost tprev = *target;
        let s = extra[i].clone();
        let ghost sg = s;
        proof {
            assert(sg@ == em[i as int]);
        }
        target.push(s);
        proof {
            crate::lemma_vec_push_deep_view(*target, tprev, sg);
            assert(tprev.deep_view().push(sg@) =~= t0 + em.subrange(0, i + 1 as int));
        }
        i += 1;
    }
    proof {
        assert(em.subrange(0, n as int) =~= em);
    }
}

} // verus!
