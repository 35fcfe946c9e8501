use vstd::prelude::*;
use crate::data_structures::intersection_payload::IntersectionPayload;
use crate::data_structures::ray::Ray;
use crate::maths::scalar::{Scalar, ONE_BITS, ZERO_BITS};
use crate::maths::vector3::Vector3;
use crate::shapes::bounds::Bounds;
use crate::shapes::rect::{
    aim_at, aims_at, pick, picks, rect_hit, rect_hits, rect_weigh, rect_weighs, thicken, thickens, Side,
};
use crate::traits::arithmetic::Arithmetic;
use crate::traits::light::Light;
use crate::traits::render_object::RenderObject;

verus! {

/// A rectangle in a plane of constant `z`, from `(x0, y0)` to `(x1, y1)`.
pub struct XYRect {
    pub x0: Scalar,
    pub x1: Scalar,
    pub y0: Scalar,
    pub y1: Scalar,
    pub z: Scalar,
    pub material_id: usize,
}

impl XYRect {
    /// The side of the rectangle along `x`, for a ray.
    pub open spec fn first(self, ray: Ray) -> Side {
        Side { origin: ray.origin.0, direction: ray.direction.0, low: self.x0, high: self.x1 }
    }

    /// The side of the rectangle along `y`, for a ray.
    pub open spec fn second(self, ray: Ray) -> Side {
        Side { origin: ray.origin.1, direction: ray.direction.1, low: self.y0, high: self.y1 }
    }

    /// The normal of the rectangle: the `z` axis.
    pub open spec fn normal() -> Vector3 {
        Vector3(Scalar { bits: ZERO_BITS }, Scalar { bits: ZERO_BITS }, Scalar { bits: ONE_BITS })
    }

    /// What `intersect` may return for `ray`.
    pub open spec fn hits<N: Arithmetic>(self, ray: Ray, num: &N, hit: Option<IntersectionPayload>) -> bool {
        rect_hits(
            num,
            ray,
            self.z,
            (ray.origin.2, ray.direction.2),
            self.first(ray),
            self.second(ray),
            XYRect::normal(),
            self.material_id,
            hit,
        )
    }

    /// What `bounds` may return: the rectangle, made `1e-5` thick to
    /// either side.
    pub open spec fn bounded<N: Arithmetic>(self, num: &N, bounds: Bounds) -> bool {
        exists|low: Scalar, high: Scalar| #[trigger]
            thickens(num, self.z, low, high) && bounds == Bounds::BoundingBox(
                Vector3(self.x0, self.y0, low),
                Vector3(self.x1, self.y1, high),
            )
    }

    /// What `pdf_value` may return for `ray`.
    pub open spec fn weighs<N: Arithmetic>(self, ray: Ray, num: &N, density: Scalar) -> bool {
        rect_weighs(
            num,
            ray,
            self.z,
            (ray.origin.2, ray.direction.2),
            self.first(ray),
            self.second(ray),
            XYRect::normal(),
            self.material_id,
            density,
        )
    }

    /// What `random` may return for `origin`: the direction of length 1
    /// towards a random point of the rectangle.
    pub open spec fn aims<N: Arithmetic>(self, origin: Vector3, num: &N, direction: Vector3) -> bool {
        exists|x: Scalar, y: Scalar| #[trigger]
            picks(num, self.x0, self.x1, x) && #[trigger] picks(num, self.y0, self.y1, y) && aims_at(
                num,
                Vector3(x, y, self.z),
                origin,
                direction,
            )
    }

    pub fn new(
        x0: Scalar,
        y0: Scalar,
        x1: Scalar,
        y1: Scalar,
        z: Scalar,
        material_id: usize,
    ) -> (rect: Box<XYRect>)
        ensures
            *rect == (XYRect { x0, x1, y0, y1, z, material_id }),
    {
        Box::new(XYRect { x0, x1, y0, y1, z, material_id })
    }
}

impl<N: Arithmetic> RenderObject<N> for XYRect {
    /// A ray that runs along the plane of the rectangle misses it, and
    /// no hit lies at a distance that is no finite number.
    fn intersect(&self, ray: &Ray, num: &N) -> (hit: Option<IntersectionPayload>)
        ensures
            self.hits(*ray, num, hit),
            hit matches Some(payload) ==> payload.distance.finite() && !payload.distance.below(
                Scalar { bits: ZERO_BITS },
            ) && payload.material_id == self.material_id,
    {
        let first = Side { origin: ray.origin.0, direction: ray.direction.0, low: self.x0, high: self.x1 };
        let second = Side { origin: ray.origin.1, direction: ray.direction.1, low: self.y0, high: self.y1 };
        rect_hit(
            num,
            ray,
            self.z,
            (ray.origin.2, ray.direction.2),
            &first,
            &second,
            Vector3(Scalar::zero(), Scalar::zero(), Scalar::one()),
            self.material_id,
        )
    }

    fn bounds(&self, num: &N) -> (bounds: Bounds)
        ensures
            self.bounded(num, bounds),
    {
        let (low, high) = thicken(num, self.z);
        Bounds::BoundingBox(Vector3(self.x0, self.y0, low), Vector3(self.x1, self.y1, high))
    }
}

impl<N: Arithmetic> Light<N> for XYRect {
    fn pdf_value(&self, ray: Ray, num: &N) -> (density: Scalar)
        ensures
            self.weighs(ray, num, density),
    {
        let first = Side { origin: ray.origin.0, direction: ray.direction.0, low: self.x0, high: self.x1 };
        let second = Side { origin: ray.origin.1, direction: ray.direction.1, low: self.y0, high: self.y1 };
        rect_weigh(
            num,
            &ray,
            self.z,
            (ray.origin.2, ray.direction.2),
            &first,
            &second,
            Vector3(Scalar::zero(), Scalar::zero(), Scalar::one()),
            self.material_id,
        )
    }

    fn random(&self, origin: Vector3, num: &N) -> (direction: Vector3)
        ensures
            self.aims(origin, num, direction),
    {
        let x = pick(num, self.x0, self.x1);
        let y = pick(num, self.y0, self.y1);
        aim_at(num, Vector3(x, y, self.z), origin)
    }
}

} // verus!
