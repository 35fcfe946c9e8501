use vstd::prelude::*;
use crate::data_structures::intersection_payload::IntersectionPayload;
use crate::data_structures::ray::Ray;
use crate::maths::scalar::{Scalar, ZERO_BITS};
use crate::maths::vector3::Vector3;
use crate::shapes::bounds::Bounds;
use crate::traits::arithmetic::{adds, divides, Arithmetic};
use crate::traits::render_object::RenderObject;

verus! {

/// A triangle with the corners `a`, `b` and `c`, seen from both sides.
pub struct Triangle {
    pub a: Vector3,
    pub b: Vector3,
    pub c: Vector3,
    pub normal: Vector3,
    pub material_id: usize,
}

/// `num` may compute `result` as `n . ((to - from) x (point - from))`:
/// not below zero where `point` lies to the left of the edge, seen
/// against `n`.
pub open spec fn sides<N: Arithmetic>(
    num: &N,
    n: Vector3,
    from: Vector3,
    to: Vector3,
    point: Vector3,
    result: Scalar,
) -> bool {
    exists|edge: Vector3, offset: Vector3, turn: Vector3|
        {
            &&& #[trigger] to.differs_to(from, num, edge)
            &&& #[trigger] point.differs_to(from, num, offset)
            &&& #[trigger] edge.crosses_to(offset, num, turn)
            &&& n.dots(turn, num, result)
        }
}

/// `n . ((to - from) x (point - from))`.
pub fn side<N: Arithmetic>(
    num: &N,
    n: Vector3,
    from: Vector3,
    to: Vector3,
    point: Vector3,
) -> (result: Scalar)
    ensures
        sides(num, n, from, to, point, result),
{
    let edge = to.minus(&from, num);
    let offset = point.minus(&from, num);
    let turn = Vector3::cross(&edge, &offset, num);
    n.dot(&turn, num)
}

/// `num` may compute `n` as the cross product of the edges from `a` to
/// `b` and from `a` to `c`.
pub open spec fn spreads<N: Arithmetic>(num: &N, a: Vector3, b: Vector3, c: Vector3, n: Vector3) -> bool {
    exists|ab: Vector3, ac: Vector3| #[trigger]
        b.differs_to(a, num, ab) && #[trigger] c.differs_to(a, num, ac) && ab.crosses_to(ac, num, n)
}

impl Triangle {
    /// `num` may compute `n` as the cross product of the edges from `a`.
    pub open spec fn faces<N: Arithmetic>(self, num: &N, n: Vector3) -> bool {
        spreads(num, self.a, self.b, self.c, n)
    }

    /// `num` may compute `t` as the place where `ray` crosses the plane
    /// of the triangle: `-(n . origin - n . a) / rise`.
    pub open spec fn crosses_plane<N: Arithmetic>(
        self,
        ray: Ray,
        num: &N,
        n: Vector3,
        rise: Scalar,
        t: Scalar,
    ) -> bool {
        exists|level: Scalar, start: Scalar, gap: Scalar|
            {
                &&& #[trigger] n.dots(self.a, num, level)
                &&& #[trigger] n.dots(ray.origin, num, start)
                &&& #[trigger] adds(num, start, level.negated(), gap)
                &&& divides(num, gap.negated(), rise, t)
            }
    }

    /// What `intersect` may return for `ray`. There is no hit where the
    /// ray runs along the plane of the triangle, where the place at which
    /// it crosses that plane is no finite number or lies behind its origin,
    /// or where it does not cross it at or to the left of all three edges.
    pub open spec fn hits<N: Arithmetic>(self, ray: Ray, num: &N, hit: Option<IntersectionPayload>) -> bool {
        exists|n: Vector3, rise: Scalar| #[trigger]
            self.faces(num, n) && #[trigger] n.dots(ray.direction, num, rise) && if rise.same(
                Scalar { bits: ZERO_BITS },
            ) {
                hit is None
            } else {
                exists|t: Scalar| #[trigger]
                    self.crosses_plane(ray, num, n, rise, t) && if !t.finite() || t.below(
                        Scalar { bits: ZERO_BITS },
                    ) {
                        hit is None
                    } else {
                        exists|p: Vector3, ab: Scalar, cb: Scalar, ca: Scalar|
                            {
                                &&& #[trigger] ray.reaches(t, num, p)
                                &&& #[trigger] sides(num, n, self.a, self.b, p, ab)
                                &&& #[trigger] sides(num, n, self.b, self.c, p, cb)
                                &&& #[trigger] sides(num, n, self.c, self.a, p, ca)
                                &&& if !((Scalar { bits: ZERO_BITS }).at_most(ab) && (Scalar {
                                    bits: ZERO_BITS,
                                }).at_most(cb) && (Scalar { bits: ZERO_BITS }).at_most(ca)) {
                                    hit is None
                                } else {
                                    hit == Some(
                                        IntersectionPayload {
                                            position: p,
                                            distance: t,
                                            normal: self.normal,
                                            material_id: self.material_id,
                                            u: Scalar { bits: ZERO_BITS },
                                            v: Scalar { bits: ZERO_BITS },
                                        },
                                    )
                                }
                            }
                    }
            }
    }

    /// The smallest box round the three corners.
    pub open spec fn spec_bounds(self) -> Bounds {
        Bounds::BoundingBox(
            self.a.lesser(self.b).lesser(self.c),
            self.a.greater(self.b).greater(self.c),
        )
    }

    /// What `new` may return: the triangle with the given corners, whose
    /// normal is the normalised cross product of its edges from `a`.
    pub open spec fn spans<N: Arithmetic>(
        a: Vector3,
        b: Vector3,
        c: Vector3,
        material_id: usize,
        num: &N,
        triangle: Triangle,
    ) -> bool {
        exists|n: Vector3| #[trigger]
            triangle.faces(num, n) && n.normalises_to(num, triangle.normal) && triangle.a == a && triangle.b == b
                && triangle.c == c && triangle.material_id == material_id
    }

    fn face<N: Arithmetic>(a: Vector3, b: Vector3, c: Vector3, num: &N) -> (n: Vector3)
        ensures
            spreads(num, a, b, c, n),
    {
        let ab = b.minus(&a, num);
        let ac = c.minus(&a, num);
        Vector3::cross(&ab, &ac, num)
    }

    pub fn new<N: Arithmetic>(
        a: Vector3,
        b: Vector3,
        c: Vector3,
        material_id: usize,
        num: &N,
    ) -> (triangle: Triangle)
        ensures
            Triangle::spans(a, b, c, material_id, num, triangle),
    {
        let n = Triangle::face(a, b, c, num);
        let normal = n.normalise(num);
        let triangle = Triangle { a, b, c, normal, material_id };
        assert(triangle.faces(num, n));
        triangle
    }
}

impl<N: Arithmetic> RenderObject<N> for Triangle {
    /// No hit lies at a distance that is no finite number or below zero.
    fn intersect(&self, ray: &Ray, num: &N) -> (hit: Option<IntersectionPayload>)
        ensures
            self.hits(*ray, num, hit),
            hit matches Some(payload) ==> payload.distance.finite() && !payload.distance.below(
                Scalar { bits: ZERO_BITS },
            ) && payload.material_id == self.material_id,
    {
        let n = Triangle::face(self.a, self.b, self.c, num);
        assert(self.faces(num, n));
        let rise = n.dot(&ray.direction, num);
        if rise.equals(Scalar::zero()) {
            return None;
        }
        let level = n.dot(&self.a, num);
        let d = level.negate();
        let start = n.dot(&ray.origin, num);
        let gap = num.sum(start, d);
        let t = num.quotient(gap.negate(), rise);
        assert(adds(num, start, level.negated(), gap));
        assert(self.crosses_plane(*ray, num, n, rise, t));
        if !t.is_finite() || t.lt(Scalar::zero()) {
            return None;
        }
        let p = ray.at(t, num);
        let test_ab = side(num, n, self.a, self.b, p);
        let test_cb = side(num, n, self.b, self.c, p);
        let test_ca = side(num, n, self.c, self.a, p);
        if !(test_ab.ge(Scalar::zero()) && test_cb.ge(Scalar::zero()) && test_ca.ge(Scalar::zero())) {
            return None;
        }
        Some(
            IntersectionPayload {
                position: p,
                distance: t,
                normal: self.normal,
                material_id: self.material_id,
                u: Scalar::zero(),
                v: Scalar::zero(),
            },
        )
    }

    fn bounds(&self, _num: &N) -> (bounds: Bounds)
        ensures
            bounds == self.spec_bounds(),
    {
        let bound_max = Vector3::max(&Vector3::max(&self.a, &self.b), &self.c);
        let bound_min = Vector3::min(&Vector3::min(&self.a, &self.b), &self.c);
        Bounds::BoundingBox(bound_min, bound_max)
    }
}

} // verus!
