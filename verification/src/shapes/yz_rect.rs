use vstd::prelude::*;
use crate::data_structures::intersection_payload::IntersectionPayload;
use crate::data_structures::ray::Ray;
use crate::maths::scalar::{Scalar, ONE_BITS, ZERO_BITS};
use crate::maths::vector3::Vector3;
use crate::shapes::bounds::Bounds;
use crate::shapes::rect::{
    aim_at, aims_at, pick, picks, rect_hit, rect_hits, rect_weigh, rect_weighs, thicken, thickens, Side,
};
use crate::traits::arithmetic::Arithmetic;
use crate::traits::light::Light;
use crate::traits::render_object::RenderObject;

verus! {

/// A rectangle in a plane of constant `x`, from `(y0, z0)` to `(y1, z1)`.
pub struct YZRect {
    pub y0: Scalar,
    pub y1: Scalar,
    pub z0: Scalar,
    pub z1: Scalar,
    pub x: Scalar,
    pub material_id: usize,
}

impl YZRect {
    /// The side of the rectangle along `y`, for a ray.
    pub open spec fn first(self, ray: Ray) -> Side {
        Side { origin: ray.origin.1, direction: ray.direction.1, low: self.y0, high: self.y1 }
    }

    /// The side of the rectangle along `z`, for a ray.
    pub open spec fn second(self, ray: Ray) -> Side {
        Side { origin: ray.origin.2, direction: ray.direction.2, low: self.z0, high: self.z1 }
    }

    /// The normal of the rectangle: the `x` axis.
    pub open spec fn normal() -> Vector3 {
        Vector3(Scalar { bits: ONE_BITS }, Scalar { bits: ZERO_BITS }, Scalar { bits: ZERO_BITS })
    }

    /// What `intersect` may return for `ray`.
    pub open spec fn hits<N: Arithmetic>(self, ray: Ray, num: &N, hit: Option<IntersectionPayload>) -> bool {
        rect_hits(
            num,
            ray,
            self.x,
            (ray.origin.0, ray.direction.0),
            self.first(ray),
            self.second(ray),
            YZRect::normal(),
            self.material_id,
            hit,
        )
    }

    /// What `bounds` may return: the rectangle, made `1e-5` thick to
    /// either side.
    pub open spec fn bounded<N: Arithmetic>(self, num: &N, bounds: Bounds) -> bool {
        exists|low: Scalar, high: Scalar| #[trigger]
            thickens(num, self.x, low, high) && bounds == Bounds::BoundingBox(
                Vector3(low, self.y0, self.z0),
                Vector3(high, self.y1, self.z1),
            )
    }

    /// What `pdf_value` may return for `ray`.
    pub open spec fn weighs<N: Arithmetic>(self, ray: Ray, num: &N, density: Scalar) -> bool {
        rect_weighs(
            num,
            ray,
            self.x,
            (ray.origin.0, ray.direction.0),
            self.first(ray),
            self.second(ray),
            YZRect::normal(),
            self.material_id,
            density,
        )
    }

    /// What `random` may return for `origin`: the direction of length 1
    /// towards a random point of the rectangle.
    pub open spec fn aims<N: Arithmetic>(self, origin: Vector3, num: &N, direction: Vector3) -> bool {
        exists|y: Scalar, z: Scalar| #[trigger]
            picks(num, self.y0, self.y1, y) && #[trigger] picks(num, self.z0, self.z1, z) && aims_at(
                num,
                Vector3(self.x, y, z),
                origin,
                direction,
            )
    }

    pub fn new(
        y0: Scalar,
        z0: Scalar,
        y1: Scalar,
        z1: Scalar,
        x: Scalar,
        material_id: usize,
    ) -> (rect: Box<YZRect>)
        ensures
            *rect == (YZRect { y0, y1, z0, z1, x, material_id }),
    {
        Box::new(YZRect { y0, y1, z0, z1, x, material_id })
    }
}

impl<N: Arithmetic> RenderObject<N> for YZRect {
    /// A ray that runs along the plane of the rectangle misses it, and
    /// no hit lies at a distance that is no finite number.
    fn intersect(&self, ray: &Ray, num: &N) -> (hit: Option<IntersectionPayload>)
        ensures
            self.hits(*ray, num, hit),
            hit matches Some(payload) ==> payload.distance.finite() && !payload.distance.below(
                Scalar { bits: ZERO_BITS },
            ) && payload.material_id == self.material_id,
    {
        let first = Side { origin: ray.origin.1, direction: ray.direction.1, low: self.y0, high: self.y1 };
        let second = Side { origin: ray.origin.2, direction: ray.direction.2, low: self.z0, high: self.z1 };
        rect_hit(
            num,
            ray,
            self.x,
            (ray.origin.0, ray.direction.0),
            &first,
            &second,
            Vector3(Scalar::one(), Scalar::zero(), Scalar::zero()),
            self.material_id,
        )
    }

    fn bounds(&self, num: &N) -> (bounds: Bounds)
        ensures
            self.bounded(num, bounds),
    {
        let (low, high) = thicken(num, self.x);
        Bounds::BoundingBox(Vector3(low, self.y0, self.z0), Vector3(high, self.y1, self.z1))
    }
}

impl<N: Arithmetic> Light<N> for YZRect {
    fn pdf_value(&self, ray: Ray, num: &N) -> (density: Scalar)
        ensures
            self.weighs(ray, num, density),
    {
        let first = Side { origin: ray.origin.1, direction: ray.direction.1, low: self.y0, high: self.y1 };
        let second = Side { origin: ray.origin.2, direction: ray.direction.2, low: self.z0, high: self.z1 };
        rect_weigh(
            num,
            &ray,
            self.x,
            (ray.origin.0, ray.direction.0),
            &first,
            &second,
            Vector3(Scalar::one(), Scalar::zero(), Scalar::zero()),
            self.material_id,
        )
    }

    fn random(&self, origin: Vector3, num: &N) -> (direction: Vector3)
        ensures
            self.aims(origin, num, direction),
    {
        let y = pick(num, self.y0, self.y1);
        let z = pick(num, self.z0, self.z1);
        aim_at(num, Vector3(self.x, y, z), origin)
    }
}

} // verus!
