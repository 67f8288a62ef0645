//! The drawable elements that a scene graph resolves to.
use crate::transform::{identity_matrix, Homo4, Transformation};
use crate::triangle_mesh::TriangleMesh;
use std::rc::Rc;
use vstd::prelude::*;

verus! {

/// One drawable element: a mesh and the chain of transforms that places it,
/// outermost ancestor first.  The chain is kept unreduced, so that a caller
/// can multiply it out in the order and at the time it wants.
#[derive(Clone, Debug)]
pub struct SceneElement {
    pub name: String,
    pub mesh: Rc<TriangleMesh>,
    pub transformations: Vec<Transformation>,
}

/// Whether `steps` lists the partial results of multiplying `start` from the
/// right by each of `factors` in turn: it begins with `start`, and each later
/// entry is what `product` made of the entry before it and the next factor.
pub open spec fn is_fold_trace<P: Fn(Homo4, Homo4) -> Homo4>(
    product: P,
    start: Homo4,
    factors: Seq<Transformation>,
    steps: Seq<Homo4>,
) -> bool {
    &&& steps.len() == factors.len() + 1
    &&& steps[0] == start
    &&& forall|i: int|
        1 <= i <= factors.len() ==> product.ensures(
            (steps[i - 1], factors[i - 1].homogeneous()),
            #[trigger] steps[i],
        )
}

/// Whether `out` can come of multiplying `start` from the right by each of
/// `factors`, first to last, with `product` as the multiplication.
pub open spec fn folds_to<P: Fn(Homo4, Homo4) -> Homo4>(
    product: P,
    start: Homo4,
    factors: Seq<Transformation>,
    out: Homo4,
) -> bool {
    exists|steps: Seq<Homo4>| #[trigger]
        is_fold_trace(product, start, factors, steps) && steps.last() == out
}

/// Multiplies `start` from the right by each of `factors`, first to last.
pub fn fold_transformations<P: Fn(Homo4, Homo4) -> Homo4>(
    product: P,
    start: Homo4,
    factors: &Vec<Transformation>,
) -> (out: Homo4)
    requires
        forall|a: Homo4, b: Homo4| product.requires((a, b)),
    ensures
        folds_to(product, start, factors@, out),
{
    let mut acc = start;
    let mut i: usize = 0;
    let ghost mut steps: Seq<Homo4> = seq![start];
    while i < factors.len()
        invariant
            i <= factors@.len(),
            forall|a: Homo4, b: Homo4| product.requires((a, b)),
            is_fold_trace(product, start, factors@.take(i as int), steps),
            steps.last() == acc,
        decreases factors@.len() - i,
    {
        acc = product(acc, factors[i].to_homogeneous());
        proof {
            let longer = steps.push(acc);
            assert forall|k: int| 1 <= k <= i + 1 implies product.ensures(
                (longer[k - 1], factors@.take(i + 1)[k - 1].homogeneous()),
                #[trigger] longer[k],
            ) by {
                if k <= i {
                    assert(longer[k] == steps[k]);
                    assert(factors@.take(i as int)[k - 1] == factors@.take(i + 1)[k - 1]);
                }
            }
            steps = longer;
        }
        i += 1;
    }
    assert(factors@.take(i as int) == factors@);
    acc
}

impl SceneElement {
    /// The chain multiplied out: the identity multiplied from the right by
    /// each transform of the chain, outermost ancestor first.  This is the
    /// transform from the frame that the element is placed in to the world.
    pub fn transformation<P: Fn(Homo4, Homo4) -> Homo4>(&self, product: P) -> (world: Homo4)
        requires
            forall|a: Homo4, b: Homo4| product.requires((a, b)),
        ensures
            folds_to(product, identity_matrix(), self.transformations@, world),
    {
        fold_transformations(product, Homo4::identity(), &self.transformations)
    }
}

/// An empty chain leaves the start as it is, and a chain of one factor gives
/// what `product` makes of the start and that factor.
pub proof fn lemma_short_folds<P: Fn(Homo4, Homo4) -> Homo4>(
    product: P,
    start: Homo4,
    factor: Transformation,
    out: Homo4,
)
    ensures
        folds_to(product, start, Seq::empty(), out) <==> out == start,
        folds_to(product, start, seq![factor], out) <==> product.ensures(
            (start, factor.homogeneous()),
            out,
        ),
{
    assert(is_fold_trace(product, start, Seq::empty(), seq![start]));
    if product.ensures((start, factor.homogeneous()), out) {
        let steps = seq![start, out];
        assert(is_fold_trace(product, start, seq![factor], steps));
        assert(steps.last() == out);
    }
    if folds_to(product, start, seq![factor], out) {
        let steps = choose|steps: Seq<Homo4>| #[trigger]
            is_fold_trace(product, start, seq![factor], steps) && steps.last() == out;
        assert(product.ensures((steps[0], seq![factor][0].homogeneous()), steps[1]));
    }
}

} // verus!
