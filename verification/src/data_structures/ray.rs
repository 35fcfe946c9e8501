use vstd::prelude::*;
use crate::maths::matrix_4x4::Matrix4x4;
use crate::maths::scalar::Scalar;
use crate::maths::vector3::Vector3;
use crate::traits::arithmetic::Arithmetic;
use crate::traits::transformable::Transformable;

verus! {

/// A half-line: the points `origin + t * direction` for `t >= 0`.
#[derive(Clone, Copy, Debug)]
pub struct Ray {
    pub origin: Vector3,
    pub direction: Vector3,
}

impl Ray {
    /// `num` may compute `point` as the point of the ray at `t`:
    /// `origin + direction * t`.
    pub open spec fn reaches<N: Arithmetic>(self, t: Scalar, num: &N, point: Vector3) -> bool {
        exists|along: Vector3| #[trigger]
            self.direction.scales_to(t, num, along) && self.origin.sums_to(along, num, point)
    }

    /// `num` may compute `result` as the ray in the given frame: the
    /// origin as a point, the direction as a direction.
    pub open spec fn transforms_to<N: Arithmetic>(
        self,
        frame: Matrix4x4,
        translate: bool,
        num: &N,
        result: Ray,
    ) -> bool {
        &&& self.origin.transforms_to(frame, translate, num, result.origin)
        &&& self.direction.transforms_to(frame, false, num, result.direction)
    }

    /// The point of the ray at `t`.
    pub fn at<N: Arithmetic>(&self, t: Scalar, num: &N) -> (point: Vector3)
        ensures
            self.reaches(t, num, point),
    {
        let along = self.direction.scale(t, num);
        self.origin.plus(&along, num)
    }

    pub fn new(origin: Vector3, direction: Vector3) -> (ray: Ray)
        ensures
            ray == (Ray { origin, direction }),
    {
        Ray { origin, direction }
    }
}

impl<N: Arithmetic> Transformable<N> for Ray {
    /// The direction is never moved to the frame's origin.
    fn transform(&self, frame: &Matrix4x4, translate: bool, num: &N) -> (result: Ray)
        ensures
            self.transforms_to(*frame, translate, num, result),
    {
        let origin = self.origin.transform(frame, translate, num);
        let direction = self.direction.transform(frame, false, num);
        Ray { origin, direction }
    }
}

} // verus!
