//! The arcball camera: pointer drags turn the scene, the wheel moves it.
//!
//! The code here decides when the camera turns, what is computed from what,
//! and in which order.  The arithmetic itself is the caller's: it comes in
//! as an [`ArcballKernel`], a set of functions on bit patterns.
use crate::scalar::{
    at_most_one, clamp_unit, clamped_unit, in_unit_interval, is_nan, lemma_clamped_unit,
    within_unit, ZERO,
};
use crate::transform::{identity_matrix, identity_rotation, Homo4, Iso3, Rot3};
use crate::window_state::{Pointer, Scroll, WindowState};
use vstd::prelude::*;

verus! {

/// A vector in space: the bit patterns of its three coordinates.
pub type Vec3 = [u32; 3];

/// The arithmetic that the arcball needs.
pub struct ArcballKernel<N, H, C, D, A, X, T, O, P> {
    /// The squared distance of a pointer position from the origin.
    pub squared_norm: N,
    /// The height of the unit hemisphere over a point of the unit disk, from
    /// the point's squared distance `d`: the square root of one minus `d`.
    pub height: H,
    /// The point of the unit circle in the direction of a pointer position.
    pub onto_rim: C,
    /// The dot product of two vectors.
    pub dot: D,
    /// The inverse cosine.
    pub arc_cosine: A,
    /// The cross product of two vectors.
    pub cross: X,
    /// The rotation about an axis, which is not normalized, by an angle times
    /// a sensitivity.
    pub turn: T,
    /// The offset that the wheel's state asks for.
    pub offset: O,
    /// The product of two homogeneous matrices.
    pub product: P,
}

/// The camera's state: the rotation gathered over all drags so far, and how
/// strongly a drag turns the scene.
#[derive(Clone, Copy, Debug, PartialEq, Eq)]
pub struct ArcballController {
    cumulative: Homo4,
    sensitivity: u32,
}

impl<N, H, C, D, A, X, T, O, P> ArcballKernel<N, H, C, D, A, X, T, O, P> where
    N: Fn(Pointer) -> u32,
    H: Fn(u32) -> u32,
    C: Fn(Pointer) -> Pointer,
    D: Fn(Vec3, Vec3) -> u32,
    A: Fn(u32) -> u32,
    X: Fn(Vec3, Vec3) -> Vec3,
    T: Fn(Vec3, u32, u32) -> Rot3,
    O: Fn(Scroll) -> Vec3,
    P: Fn(Homo4, Homo4) -> Homo4,
 {
    /// Whether every function accepts what the arcball can hand to it.  The
    /// two partial ones need to accept no more than their domains: `height` a
    /// number that is at most one, and `arc_cosine` a NaN or a number between
    /// minus one and one.
    pub open spec fn usable(&self) -> bool {
        &&& forall|p: Pointer| self.squared_norm.requires((p,))
        &&& forall|d: u32| at_most_one(d) ==> self.height.requires((d,))
        &&& forall|p: Pointer| self.onto_rim.requires((p,))
        &&& forall|a: Vec3, b: Vec3| self.dot.requires((a, b))
        &&& forall|c: u32| is_nan(c) || in_unit_interval(c) ==> self.arc_cosine.requires((c,))
        &&& forall|a: Vec3, b: Vec3| self.cross.requires((a, b))
        &&& forall|axis: Vec3, angle: u32, s: u32| self.turn.requires((axis, angle, s))
        &&& forall|s: Scroll| self.offset.requires((s,))
        &&& forall|a: Homo4, b: Homo4| self.product.requires((a, b))
    }

    /// Whether `v` can be the projection of `p` onto the arcball.  A
    /// position whose squared distance from the origin is at most one, the
    /// rim of the disk included, is lifted onto the unit hemisphere.  Any
    /// other is pulled onto the unit circle, at height zero.
    pub open spec fn projects(&self, p: Pointer, v: Vec3) -> bool {
        exists|d: u32|
            {
                &&& #[trigger] self.squared_norm.ensures((p,), d)
                &&& if at_most_one(d) {
                    exists|z: u32| #[trigger] self.height.ensures((d,), z) && v == [p.x, p.y, z]
                } else {
                    exists|q: Pointer|
                        #[trigger] self.onto_rim.ensures((p,), q) && v == [q.x, q.y, ZERO]
                }
            }
    }

    /// Whether `angle` can be the angle between `va` and `vb`: the inverse
    /// cosine of their dot product, clamped to where the inverse cosine is
    /// defined.
    pub open spec fn measures(&self, va: Vec3, vb: Vec3, angle: u32) -> bool {
        exists|d: u32|
            {
                &&& #[trigger] self.dot.ensures((va, vb), d)
                &&& self.arc_cosine.ensures((clamped_unit(d),), angle)
            }
    }

    /// Whether `step` can be the rotation that a drag from `from` to `to`
    /// asks for: about the cross product of the two projected positions, by
    /// the angle between them times the sensitivity.
    pub open spec fn rotates(
        &self,
        from: Pointer,
        to: Pointer,
        sensitivity: u32,
        step: Rot3,
    ) -> bool {
        exists|va: Vec3, vb: Vec3, angle: u32, axis: Vec3|
            #![trigger self.measures(va, vb, angle), self.cross.ensures((va, vb), axis)]
            {
                &&& self.projects(from, va)
                &&& self.projects(to, vb)
                &&& self.measures(va, vb, angle)
                &&& self.cross.ensures((va, vb), axis)
                &&& self.turn.ensures((axis, angle, sensitivity), step)
            }
    }

    /// Whether `after` can follow `before` in a frame that saw the window go
    /// from `previous` to `current`.  With the button up the rotation is
    /// carried forward unchanged.  With the button held it is multiplied
    /// from the right by the homogeneous form of the rotation from the
    /// previous pointer position to the current one.
    pub open spec fn turns(
        &self,
        before: ArcballController,
        after: ArcballController,
        previous: WindowState,
        current: WindowState,
    ) -> bool {
        &&& after.sensitivity() == before.sensitivity()
        &&& if current.is_dragging {
            exists|step: Rot3|
                {
                    &&& #[trigger] self.rotates(
                        previous.pointer,
                        current.pointer,
                        before.sensitivity(),
                        step,
                    )
                    &&& self.product.ensures(
                        (before.cumulative(), step.homogeneous()),
                        after.cumulative(),
                    )
                }
        } else {
            after.cumulative() == before.cumulative()
        }
    }

    /// Whether `camera` can be the transform of a frame: the translation by
    /// the offset that the wheel's state asks for, times the rotation
    /// gathered so far.
    pub open spec fn frames(
        &self,
        controller: ArcballController,
        window: WindowState,
        camera: Homo4,
    ) -> bool {
        exists|by: Vec3|
            {
                &&& #[trigger] self.offset.ensures((window.scroll,), by)
                &&& self.product.ensures(
                    (
                        (Iso3 { rotation: identity_rotation(), translation: by }).homogeneous(),
                        controller.cumulative(),
                    ),
                    camera,
                )
            }
    }

    /// Projects a pointer position onto the arcball.
    pub fn project(&self, p: Pointer) -> (v: Vec3)
        requires
            self.usable(),
        ensures
            self.projects(p, v),
    {
        let d = (self.squared_norm)(p);
        if within_unit(d) {
            let z = (self.height)(d);
            [p.x, p.y, z]
        } else {
            let q = (self.onto_rim)(p);
            [q.x, q.y, ZERO]
        }
    }

    /// The angle between two vectors of the arcball.  The dot product is
    /// clamped first, so that one which rounding has carried just past one
    /// still has an inverse cosine.
    pub fn angle(&self, va: Vec3, vb: Vec3) -> (angle: u32)
        requires
            self.usable(),
        ensures
            self.measures(va, vb, angle),
    {
        let d = (self.dot)(va, vb);
        (self.arc_cosine)(clamp_unit(d))
    }

    /// The rotation that a drag from `from` to `to` asks for.
    pub fn rotation(&self, from: Pointer, to: Pointer, sensitivity: u32) -> (step: Rot3)
        requires
            self.usable(),
        ensures
            self.rotates(from, to, sensitivity, step),
    {
        let va = self.project(from);
        let vb = self.project(to);
        let angle = self.angle(va, vb);
        let axis = (self.cross)(va, vb);
        (self.turn)(axis, angle, sensitivity)
    }
}

impl ArcballController {
    pub closed spec fn cumulative_rotation(&self) -> Homo4 {
        self.cumulative
    }

    pub closed spec fn drag_sensitivity(&self) -> u32 {
        self.sensitivity
    }

    /// A camera that has not been turned yet.
    pub fn new(sensitivity: u32) -> (controller: ArcballController)
        ensures
            controller.cumulative() == identity_matrix(),
            controller.sensitivity() == sensitivity,
    {
        ArcballController { cumulative: Homo4::identity(), sensitivity }
    }

    /// The rotation gathered over all drags so far.
    #[verifier::when_used_as_spec(cumulative_rotation)]
    pub fn cumulative(&self) -> (m: Homo4)
        ensures
            m == self.cumulative(),
    {
        self.cumulative
    }

    /// The factor by which a drag's angle is scaled.
    #[verifier::when_used_as_spec(drag_sensitivity)]
    pub fn sensitivity(&self) -> (s: u32)
        ensures
            s == self.sensitivity(),
    {
        self.sensitivity
    }

    /// Takes in one frame: turns the camera if the button is held, and
    /// leaves it alone if not.
    pub fn rotate<N, H, C, D, A, X, T, O, P>(
        &mut self,
        previous: &WindowState,
        current: &WindowState,
        kernel: &ArcballKernel<N, H, C, D, A, X, T, O, P>,
    ) where
        N: Fn(Pointer) -> u32,
        H: Fn(u32) -> u32,
        C: Fn(Pointer) -> Pointer,
        D: Fn(Vec3, Vec3) -> u32,
        A: Fn(u32) -> u32,
        X: Fn(Vec3, Vec3) -> Vec3,
        T: Fn(Vec3, u32, u32) -> Rot3,
        O: Fn(Scroll) -> Vec3,
        P: Fn(Homo4, Homo4) -> Homo4,

        requires
            kernel.usable(),
        ensures
            kernel.turns(*old(self), *final(self), *previous, *current),
    {
        if current.is_dragging {
            let step = kernel.rotation(previous.pointer, current.pointer, self.sensitivity);
            self.cumulative = (kernel.product)(self.cumulative, step.to_homogeneous());
        }
    }

    /// The transform to draw this frame with.  It is made from the wheel's
    /// present state alone, so a wheel that is to move the scene for good
    /// has to be summed up by the caller.
    pub fn camera<N, H, C, D, A, X, T, O, P>(
        &self,
        window: &WindowState,
        kernel: &ArcballKernel<N, H, C, D, A, X, T, O, P>,
    ) -> (camera: Homo4) where
        N: Fn(Pointer) -> u32,
        H: Fn(u32) -> u32,
        C: Fn(Pointer) -> Pointer,
        D: Fn(Vec3, Vec3) -> u32,
        A: Fn(u32) -> u32,
        X: Fn(Vec3, Vec3) -> Vec3,
        T: Fn(Vec3, u32, u32) -> Rot3,
        O: Fn(Scroll) -> Vec3,
        P: Fn(Homo4, Homo4) -> Homo4,

        requires
            kernel.usable(),
        ensures
            kernel.frames(*self, *window, camera),
    {
        let by = (kernel.offset)(window.scroll);
        (kernel.product)(Iso3::translation(by).to_homogeneous(), self.cumulative)
    }
}

/// Letting go of the button freezes the camera: over two frames with the
/// button up the gathered rotation stays what it was, wherever the pointer
/// is.  As long as the wheel is not turned either, the same offset and the
/// same two matrices make the frame's transform.
pub proof fn lemma_release_freezes<N, H, C, D, A, X, T, O, P>(
    kernel: ArcballKernel<N, H, C, D, A, X, T, O, P>,
    c0: ArcballController,
    c1: ArcballController,
    c2: ArcballController,
    w0: WindowState,
    w1: WindowState,
    w2: WindowState,
) where
    N: Fn(Pointer) -> u32,
    H: Fn(u32) -> u32,
    C: Fn(Pointer) -> Pointer,
    D: Fn(Vec3, Vec3) -> u32,
    A: Fn(u32) -> u32,
    X: Fn(Vec3, Vec3) -> Vec3,
    T: Fn(Vec3, u32, u32) -> Rot3,
    O: Fn(Scroll) -> Vec3,
    P: Fn(Homo4, Homo4) -> Homo4,

    requires
        kernel.turns(c0, c1, w0, w1),
        kernel.turns(c1, c2, w1, w2),
        !w1.is_dragging,
        !w2.is_dragging,
    ensures
        c1 == c0,
        c2 == c0,
        w1.scroll == w2.scroll ==> forall|camera: Homo4|
            kernel.frames(c1, w1, camera) == kernel.frames(c2, w2, camera),
{
}

/// Whatever the dot product of two vectors comes to, the inverse cosine is
/// asked of a number between minus one and one, or of a NaN if the dot
/// product was a NaN: no angle is taken of a number outside the domain.
pub proof fn lemma_angle_in_domain<N, H, C, D, A, X, T, O, P>(
    kernel: ArcballKernel<N, H, C, D, A, X, T, O, P>,
    va: Vec3,
    vb: Vec3,
    angle: u32,
) where
    N: Fn(Pointer) -> u32,
    H: Fn(u32) -> u32,
    C: Fn(Pointer) -> Pointer,
    D: Fn(Vec3, Vec3) -> u32,
    A: Fn(u32) -> u32,
    X: Fn(Vec3, Vec3) -> Vec3,
    T: Fn(Vec3, u32, u32) -> Rot3,
    O: Fn(Scroll) -> Vec3,
    P: Fn(Homo4, Homo4) -> Homo4,

    requires
        kernel.measures(va, vb, angle),
    ensures
        exists|c: u32|
            (is_nan(c) || in_unit_interval(c)) && #[trigger] kernel.arc_cosine.ensures(
                (c,),
                angle,
            ),
{
    let d = choose|d: u32|
        {
            &&& #[trigger] kernel.dot.ensures((va, vb), d)
            &&& kernel.arc_cosine.ensures((clamped_unit(d),), angle)
        };
    lemma_clamped_unit(d);
}

} // verus!
