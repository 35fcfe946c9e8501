use vstd::prelude::*;
use crate::data_structures::intersection_payload::IntersectionPayload;
use crate::data_structures::ray::Ray;
use crate::maths::scalar::{Scalar, ONE_BITS, ZERO_BITS};
use crate::maths::vector3::Vector3;
use crate::shapes::bounds::Bounds;
use crate::traits::arithmetic::{adds, divides, Arithmetic};
use crate::traits::render_object::RenderObject;

verus! {

/// A plane without end, with a pattern of unit squares along two axes.
pub struct Plane {
    pub position: Vector3,
    pub normal: Vector3,
    pub a_basis: Vector3,
    pub b_basis: Vector3,
    pub material_id: usize,
}

/// `num` may compute `result` as the place of `point` within the unit
/// square that it lies in, along `basis` from `anchor`: the remainder of
/// the distance by 1, and 1 more where the distance is below zero.
pub open spec fn wraps<N: Arithmetic>(
    num: &N,
    point: Vector3,
    anchor: Vector3,
    basis: Vector3,
    result: Scalar,
) -> bool {
    exists|offset: Vector3, distance: Scalar, rest: Scalar|
        {
            &&& #[trigger] point.differs_to(anchor, num, offset)
            &&& #[trigger] offset.dots(basis, num, distance)
            &&& #[trigger] call_ensures(N::remainder, (num, distance, Scalar { bits: ONE_BITS }), rest)
            &&& if (Scalar { bits: ZERO_BITS }).at_most(distance) {
                result == rest
            } else {
                adds(num, rest, Scalar { bits: ONE_BITS }, result)
            }
        }
}

/// The place of `point` within the unit square that it lies in, along
/// `basis` from `anchor`.
pub fn wrap<N: Arithmetic>(num: &N, point: Vector3, anchor: Vector3, basis: Vector3) -> (result: Scalar)
    ensures
        wraps(num, point, anchor, basis, result),
{
    let offset = point.minus(&anchor, num);
    let distance = offset.dot(&basis, num);
    let rest = num.remainder(distance, Scalar::one());
    if distance.ge(Scalar::zero()) {
        rest
    } else {
        num.sum(rest, Scalar::one())
    }
}

impl Plane {
    /// What `intersect` may return for `ray`. There is no hit where the
    /// ray runs along the plane. Else the ray crosses the plane at the
    /// height of the plane's position above the ray's origin, over the
    /// ray's rise along the normal; there is no hit where that distance
    /// is no finite number or at most zero.
    pub open spec fn hits<N: Arithmetic>(self, ray: Ray, num: &N, hit: Option<IntersectionPayload>) -> bool {
        exists|rise: Scalar| #[trigger]
            self.normal.dots(ray.direction, num, rise) && if rise.same(Scalar { bits: ZERO_BITS }) {
                hit is None
            } else {
                exists|offset: Vector3, height: Scalar, distance: Scalar|
                    {
                        &&& #[trigger] self.position.differs_to(ray.origin, num, offset)
                        &&& #[trigger] offset.dots(self.normal, num, height)
                        &&& #[trigger] divides(num, height, rise, distance)
                        &&& if !distance.finite() || distance.at_most(Scalar { bits: ZERO_BITS }) {
                            hit is None
                        } else {
                            exists|position: Vector3, u: Scalar, v: Scalar|
                                {
                                    &&& #[trigger] ray.reaches(distance, num, position)
                                    &&& #[trigger] wraps(num, position, self.position, self.a_basis, u)
                                    &&& #[trigger] wraps(num, position, self.position, self.b_basis, v)
                                    &&& hit == Some(
                                        IntersectionPayload {
                                            position,
                                            distance,
                                            normal: self.normal,
                                            material_id: self.material_id,
                                            u,
                                            v,
                                        },
                                    )
                                }
                        }
                    }
            }
    }

    /// What `new` may return: the plane through `position` whose normal is
    /// the normalised `normal`, with the pattern's second axis across the
    /// normal and the x axis, and its first axis across the second axis and
    /// the normal.
    pub open spec fn spans<N: Arithmetic>(
        position: Vector3,
        normal: Vector3,
        material_id: usize,
        num: &N,
        plane: Plane,
    ) -> bool {
        exists|across: Vector3|
            {
                &&& normal.normalises_to(num, plane.normal)
                &&& #[trigger] plane.normal.crosses_to(
                    Vector3(Scalar { bits: ONE_BITS }, Scalar { bits: ZERO_BITS }, Scalar { bits: ZERO_BITS }),
                    num,
                    across,
                )
                &&& across.normalises_to(num, plane.b_basis)
                &&& plane.b_basis.crosses_to(plane.normal, num, plane.a_basis)
                &&& plane.position == position
                &&& plane.material_id == material_id
            }
    }

    pub fn new<N: Arithmetic>(
        position: Vector3,
        normal: Vector3,
        material_id: usize,
        num: &N,
    ) -> (plane: Box<Plane>)
        ensures
            Plane::spans(position, normal, material_id, num, *plane),
    {
        let unit_normal = normal.normalise(num);
        let across = Vector3::cross(&unit_normal, &Vector3(Scalar::one(), Scalar::zero(), Scalar::zero()), num);
        let b_basis = across.normalise(num);
        let a_basis = Vector3::cross(&b_basis, &unit_normal, num);
        let plane = Plane { position, normal: unit_normal, a_basis, b_basis, material_id };
        assert(plane.normal.crosses_to(
            Vector3(Scalar { bits: ONE_BITS }, Scalar { bits: ZERO_BITS }, Scalar { bits: ZERO_BITS }),
            num,
            across,
        ));
        Box::new(plane)
    }
}

impl<N: Arithmetic> RenderObject<N> for Plane {
    /// No hit lies at a distance that is no finite number or not above zero.
    fn intersect(&self, ray: &Ray, num: &N) -> (hit: Option<IntersectionPayload>)
        ensures
            self.hits(*ray, num, hit),
            hit matches Some(payload) ==> payload.distance.finite() && (Scalar { bits: ZERO_BITS }).below(
                payload.distance,
            ) && payload.material_id == self.material_id,
    {
        let rise = self.normal.dot(&ray.direction, num);
        if rise.equals(Scalar::zero()) {
            return None;
        }
        let offset = self.position.minus(&ray.origin, num);
        let height = offset.dot(&self.normal, num);
        let distance = num.quotient(height, rise);
        assert(divides(num, height, rise, distance));
        if !distance.is_finite() || distance.le(Scalar::zero()) {
            return None;
        }
        let position = ray.at(distance, num);
        let u = wrap(num, position, self.position, self.a_basis);
        let v = wrap(num, position, self.position, self.b_basis);
        Some(
            IntersectionPayload { position, distance, normal: self.normal, material_id: self.material_id, u, v },
        )
    }

    /// A plane has no end: all of space.
    fn bounds(&self, _num: &N) -> (bounds: Bounds)
        ensures
            bounds == Bounds::Full,
    {
        Bounds::Full
    }
}

} // verus!
