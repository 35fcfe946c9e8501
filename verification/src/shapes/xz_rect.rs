use vstd::prelude::*;
use crate::data_structures::intersection_payload::IntersectionPayload;
use crate::data_structures::ray::Ray;
use crate::maths::scalar::{Scalar, ONE_BITS, ZERO_BITS};
use crate::maths::vector3::Vector3;
use crate::shapes::bounds::Bounds;
use crate::shapes::rect::{rect_hit, rect_hits, thicken, thickens, Side};
use crate::traits::arithmetic::Arithmetic;
use crate::traits::render_object::RenderObject;

verus! {

/// A rectangle in a plane of constant `y`, from `(x0, z0)` to `(x1, z1)`.
pub struct XZRect {
    pub x0: Scalar,
    pub x1: Scalar,
    pub z0: Scalar,
    pub z1: Scalar,
    pub y: Scalar,
    pub material_id: usize,
}

impl XZRect {
    /// The side of the rectangle along `x`, for a ray.
    pub open spec fn first(self, ray: Ray) -> Side {
        Side { origin: ray.origin.0, direction: ray.direction.0, low: self.x0, high: self.x1 }
    }

    /// The side of the rectangle along `z`, for a ray.
    pub open spec fn second(self, ray: Ray) -> Side {
        Side { origin: ray.origin.2, direction: ray.direction.2, low: self.z0, high: self.z1 }
    }

    /// The normal of the rectangle: the `y` axis.
    pub open spec fn normal() -> Vector3 {
        Vector3(Scalar { bits: ZERO_BITS }, Scalar { bits: ONE_BITS }, Scalar { bits: ZERO_BITS })
    }

    /// What `intersect` may return for `ray`.
    pub open spec fn hits<N: Arithmetic>(self, ray: Ray, num: &N, hit: Option<IntersectionPayload>) -> bool {
        rect_hits(
            num,
            ray,
            self.y,
            (ray.origin.1, ray.direction.1),
            self.first(ray),
            self.second(ray),
            XZRect::normal(),
            self.material_id,
            hit,
        )
    }

    /// What `bounds` may return: the rectangle, made `1e-5` thick to
    /// either side.
    pub open spec fn bounded<N: Arithmetic>(self, num: &N, bounds: Bounds) -> bool {
        exists|low: Scalar, high: Scalar| #[trigger]
            thickens(num, self.y, low, high) && bounds == Bounds::BoundingBox(
                Vector3(self.x0, low, self.z0),
                Vector3(self.x1, high, self.z1),
            )
    }

    pub fn new(
        x0: Scalar,
        z0: Scalar,
        x1: Scalar,
        z1: Scalar,
        y: Scalar,
        material_id: usize,
    ) -> (rect: Box<XZRect>)
        ensures
            *rect == (XZRect { x0, x1, z0, z1, y, material_id }),
    {
        Box::new(XZRect { x0, x1, z0, z1, y, material_id })
    }
}

impl<N: Arithmetic> RenderObject<N> for XZRect {
    /// A ray that runs along the plane of the rectangle misses it, and
    /// no hit lies at a distance that is no finite number.
    fn intersect(&self, ray: &Ray, num: &N) -> (hit: Option<IntersectionPayload>)
        ensures
            self.hits(*ray, num, hit),
            hit matches Some(payload) ==> payload.distance.finite() && !payload.distance.below(
                Scalar { bits: ZERO_BITS },
            ) && payload.material_id == self.material_id,
    {
        let first = Side { origin: ray.origin.0, direction: ray.direction.0, low: self.x0, high: self.x1 };
        let second = Side { origin: ray.origin.2, direction: ray.direction.2, low: self.z0, high: self.z1 };
        rect_hit(
            num,
            ray,
            self.y,
            (ray.origin.1, ray.direction.1),
            &first,
            &second,
            Vector3(Scalar::zero(), Scalar::one(), Scalar::zero()),
            self.material_id,
        )
    }

    fn bounds(&self, num: &N) -> (bounds: Bounds)
        ensures
            self.bounded(num, bounds),
    {
        let (low, high) = thicken(num, self.y);
        Bounds::BoundingBox(Vector3(self.x0, low, self.z0), Vector3(self.x1, high, self.z1))
    }
}

} // verus!
