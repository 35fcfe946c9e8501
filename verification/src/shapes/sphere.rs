use vstd::prelude::*;
use crate::data_structures::intersection_payload::IntersectionPayload;
use crate::data_structures::ray::Ray;
use crate::maths::scalar::{Scalar, PI_BITS, TWO_PI_BITS, ZERO_BITS};
use crate::maths::vector3::Vector3;
use crate::shapes::bounds::Bounds;
use crate::traits::arithmetic::{divides, multiplies, roots, subtracts, Arithmetic};
use crate::traits::render_object::RenderObject;

verus! {

/// A sphere. Rays are taken to have a direction of length 1.
pub struct Sphere {
    pub center: Vector3,
    pub radius: Scalar,
    pub material_id: usize,
}

/// `num` may compute `u` and `v` as the place of a point of the unit
/// sphere on a map of it: `u` from the angle round the z axis, over two
/// pi, and `v` from the angle down from the z axis, over pi.
pub open spec fn maps<N: Arithmetic>(num: &N, normal: Vector3, u: Scalar, v: Scalar) -> bool {
    exists|theta: Scalar, phi: Scalar|
        {
            &&& #[trigger] call_ensures(N::arc_cosine, (num, normal.2.negated()), theta)
            &&& #[trigger] call_ensures(N::arc_tangent, (num, normal.1.negated(), normal.0), phi)
            &&& divides(num, phi, Scalar { bits: TWO_PI_BITS }, u)
            &&& divides(num, theta, Scalar { bits: PI_BITS }, v)
        }
}

impl Sphere {
    /// `num` may compute `discriminant` from `along`, the ray's run along
    /// the offset of its origin from the centre:
    /// `along^2 - (|offset|^2 - radius^2)`.
    pub open spec fn discriminates<N: Arithmetic>(
        self,
        offset: Vector3,
        along: Scalar,
        num: &N,
        discriminant: Scalar,
    ) -> bool {
        exists|run: Scalar, far: Scalar, wide: Scalar, out: Scalar|
            {
                &&& #[trigger] multiplies(num, along, along, run)
                &&& #[trigger] offset.dots(offset, num, far)
                &&& #[trigger] multiplies(num, self.radius, self.radius, wide)
                &&& #[trigger] subtracts(num, far, wide, out)
                &&& subtracts(num, run, out, discriminant)
            }
    }

    /// What `intersect` may return for `ray`. There is no hit where the
    /// discriminant is below zero. Else the ray enters the sphere at
    /// `-along - sqrt(discriminant)`; there is no hit where that distance
    /// is no finite number or at most zero.
    pub open spec fn hits<N: Arithmetic>(self, ray: Ray, num: &N, hit: Option<IntersectionPayload>) -> bool {
        exists|offset: Vector3, along: Scalar, discriminant: Scalar|
            {
                &&& #[trigger] ray.origin.differs_to(self.center, num, offset)
                &&& #[trigger] ray.direction.dots(offset, num, along)
                &&& #[trigger] self.discriminates(offset, along, num, discriminant)
                &&& if discriminant.below(Scalar { bits: ZERO_BITS }) {
                    hit is None
                } else {
                    exists|depth: Scalar, distance: Scalar| #[trigger]
                        roots(num, discriminant, depth) && #[trigger] subtracts(
                            num,
                            along.negated(),
                            depth,
                            distance,
                        ) && if !distance.finite() || distance.at_most(Scalar { bits: ZERO_BITS }) {
                            hit is None
                        } else {
                            exists|position: Vector3, out: Vector3, normal: Vector3, u: Scalar, v: Scalar|
                                {
                                    &&& #[trigger] ray.reaches(distance, num, position)
                                    &&& #[trigger] position.differs_to(self.center, num, out)
                                    &&& #[trigger] out.divides_to(self.radius, num, normal)
                                    &&& #[trigger] maps(num, normal, u, v)
                                    &&& hit == Some(
                                        IntersectionPayload {
                                            position,
                                            distance,
                                            normal,
                                            material_id: self.material_id,
                                            u,
                                            v,
                                        },
                                    )
                                }
                        }
                }
            }
    }

    /// What `bounds` may return: the box from the centre less the radius
    /// to the centre and the radius, on every axis.
    pub open spec fn bounded<N: Arithmetic>(self, num: &N, bounds: Bounds) -> bool {
        exists|min: Vector3, max: Vector3| #[trigger]
            self.center.differs_to(Vector3(self.radius, self.radius, self.radius), num, min)
                && #[trigger] self.center.sums_to(Vector3(self.radius, self.radius, self.radius), num, max)
                && bounds == Bounds::BoundingBox(min, max)
    }

    pub fn new(center: Vector3, radius: Scalar, material_id: usize) -> (sphere: Sphere)
        ensures
            sphere == (Sphere { center, radius, material_id }),
    {
        Sphere { center, radius, material_id }
    }
}

impl<N: Arithmetic> RenderObject<N> for Sphere {
    /// No hit lies at a distance that is no finite number or not above zero.
    fn intersect(&self, ray: &Ray, num: &N) -> (hit: Option<IntersectionPayload>)
        ensures
            self.hits(*ray, num, hit),
            hit matches Some(payload) ==> payload.distance.finite() && (Scalar { bits: ZERO_BITS }).below(
                payload.distance,
            ) && payload.material_id == self.material_id,
    {
        let offset = ray.origin.minus(&self.center, num);
        let along = ray.direction.dot(&offset, num);
        let run = num.product(along, along);
        let far = offset.square_magnitude(num);
        let wide = num.product(self.radius, self.radius);
        let out = num.difference(far, wide);
        let discriminant = num.difference(run, out);
        assert(multiplies(num, along, along, run) && multiplies(num, self.radius, self.radius, wide) && subtracts(
            num,
            far,
            wide,
            out,
        ));
        assert(self.discriminates(offset, along, num, discriminant));
        if discriminant.lt(Scalar::zero()) {
            return None;
        }
        let depth = num.root(discriminant);
        let distance = num.difference(along.negate(), depth);
        assert(roots(num, discriminant, depth) && subtracts(num, along.negated(), depth, distance));
        if !distance.is_finite() || distance.le(Scalar::zero()) {
            return None;
        }
        let position = ray.at(distance, num);
        let from_center = position.minus(&self.center, num);
        let normal = from_center.over(self.radius, num);
        let theta = num.arc_cosine(normal.2.negate());
        let phi = num.arc_tangent(normal.1.negate(), normal.0);
        let u = num.quotient(phi, Scalar::from_bits(TWO_PI_BITS));
        let v = num.quotient(theta, Scalar::from_bits(PI_BITS));
        assert(maps(num, normal, u, v));
        Some(IntersectionPayload { position, distance, normal, material_id: self.material_id, u, v })
    }

    fn bounds(&self, num: &N) -> (bounds: Bounds)
        ensures
            self.bounded(num, bounds),
    {
        let offset = Vector3(self.radius, self.radius, self.radius);
        let min = self.center.minus(&offset, num);
        let max = self.center.plus(&offset, num);
        Bounds::BoundingBox(min, max)
    }
}

} // verus!
