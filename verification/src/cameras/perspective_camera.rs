use vstd::prelude::*;
use crate::data_structures::ray::Ray;
use crate::maths::matrix_4x4::Matrix4x4;
use crate::maths::scalar::{Scalar, ONE_BITS, TWO_BITS};
use crate::maths::vector3::{Vector3, TRIES};
use crate::shapes::rect::{aim_at, aims_at};
use crate::traits::arithmetic::{divides, multiplies, subtracts, Arithmetic};
use crate::traits::camera::Camera;
use crate::traits::transformable::Transformable;

verus! {

/// A camera with perspective, and with a lens that blurs what is out of focus.
pub struct PerspectiveCamera {
    pub transform: Matrix4x4,
    pub tan_half_fov: Scalar,
    pub aperture: Scalar,
    pub focal_depth: Scalar,
}

/// `num` may compute `result` as the place of a pixel across the plane of
/// focus: `((pixel / size) * 2 - 1) * tan_half_fov * focal_depth`.
pub open spec fn spans_to<N: Arithmetic>(
    num: &N,
    pixel: Scalar,
    size: usize,
    tan_half_fov: Scalar,
    focal_depth: Scalar,
    result: Scalar,
) -> bool {
    exists|whole: Scalar, share: Scalar, twice: Scalar, centred: Scalar, spread: Scalar|
        {
            &&& call_ensures(N::number, (num, size), whole)
            &&& #[trigger] divides(num, pixel, whole, share)
            &&& #[trigger] multiplies(num, share, Scalar { bits: TWO_BITS }, twice)
            &&& #[trigger] subtracts(num, twice, Scalar { bits: ONE_BITS }, centred)
            &&& #[trigger] multiplies(num, centred, tan_half_fov, spread)
            &&& multiplies(num, spread, focal_depth, result)
        }
}

/// The place of a pixel across the plane of focus.
pub fn span_to<N: Arithmetic>(
    num: &N,
    pixel: Scalar,
    size: usize,
    tan_half_fov: Scalar,
    focal_depth: Scalar,
) -> (result: Scalar)
    ensures
        spans_to(num, pixel, size, tan_half_fov, focal_depth, result),
{
    let whole = num.number(size);
    let share = num.quotient(pixel, whole);
    let twice = num.product(share, Scalar::from_bits(TWO_BITS));
    let centred = num.difference(twice, Scalar::one());
    let spread = num.product(centred, tan_half_fov);
    let result = num.product(spread, focal_depth);
    assert(divides(num, pixel, whole, share) && multiplies(num, share, Scalar { bits: TWO_BITS }, twice) && subtracts(
        num,
        twice,
        Scalar { bits: ONE_BITS },
        centred,
    ) && multiplies(num, centred, tan_half_fov, spread));
    result
}

impl PerspectiveCamera {
    /// `num` may compute `offset` as a random point of the lens:
    /// a random point of the unit disk, times the aperture, over 2.
    pub open spec fn lens<N: Arithmetic>(self, num: &N, offset: Vector3) -> bool {
        exists|point: Vector3, wide: Vector3|
            {
                &&& #[trigger] Vector3::finds(num, true, TRIES as nat, point)
                &&& #[trigger] point.scales_to(self.aperture, num, wide)
                &&& wide.divides_to(Scalar { bits: TWO_BITS }, num, offset)
            }
    }

    /// `num` may compute `target` as the point of the plane of focus that
    /// the pixel shows.
    pub open spec fn focus<N: Arithmetic>(
        self,
        width: usize,
        height: usize,
        x: Scalar,
        y: Scalar,
        num: &N,
        target: Vector3,
    ) -> bool {
        exists|tall: Scalar, wide: Scalar, aspect_ratio: Scalar, up: Scalar|
            {
                &&& call_ensures(N::number, (num, height), tall)
                &&& call_ensures(N::number, (num, width), wide)
                &&& #[trigger] divides(num, tall, wide, aspect_ratio)
                &&& #[trigger] spans_to(num, y, height, self.tan_half_fov, self.focal_depth, up)
                &&& exists|z: Scalar| #[trigger]
                    multiplies(num, up, aspect_ratio, z) && spans_to(
                        num,
                        x,
                        width,
                        self.tan_half_fov,
                        self.focal_depth,
                        target.0,
                    ) && target.1 == self.focal_depth && target.2 == z.negated()
            }
    }

    /// What `generate_ray` may return: the ray from a random point of the
    /// lens towards the point of the plane of focus that the pixel shows,
    /// placed in the world by the camera's frame.
    pub open spec fn shoots<N: Arithmetic>(
        self,
        width: usize,
        height: usize,
        x: Scalar,
        y: Scalar,
        num: &N,
        ray: Ray,
    ) -> bool {
        exists|offset: Vector3, target: Vector3, direction: Vector3|
            {
                &&& #[trigger] self.lens(num, offset)
                &&& #[trigger] self.focus(width, height, x, y, num, target)
                &&& #[trigger] aims_at(num, target, offset, direction)
                &&& (Ray { origin: offset, direction }).transforms_to(self.transform, true, num, ray)
            }
    }

    /// What `new` may return: a camera whose `tan_half_fov` is the tangent
    /// of half the field of view.
    pub open spec fn opens<N: Arithmetic>(
        transform: Matrix4x4,
        field_of_view: Scalar,
        aperture: Scalar,
        focal_depth: Scalar,
        num: &N,
        camera: PerspectiveCamera,
    ) -> bool {
        exists|half: Scalar| #[trigger]
            divides(num, field_of_view, Scalar { bits: TWO_BITS }, half) && call_ensures(
                N::tangent,
                (num, half),
                camera.tan_half_fov,
            ) && camera.transform == transform && camera.aperture == aperture && camera.focal_depth
                == focal_depth
    }

    pub fn new<N: Arithmetic>(
        transform: Matrix4x4,
        field_of_view: Scalar,
        aperture: Scalar,
        focal_depth: Scalar,
        num: &N,
    ) -> (camera: PerspectiveCamera)
        ensures
            PerspectiveCamera::opens(transform, field_of_view, aperture, focal_depth, num, camera),
    {
        let half = num.quotient(field_of_view, Scalar::from_bits(TWO_BITS));
        let tan_half_fov = num.tangent(half);
        assert(divides(num, field_of_view, Scalar { bits: TWO_BITS }, half));
        PerspectiveCamera { transform, tan_half_fov, aperture, focal_depth }
    }
}

impl<N: Arithmetic> Camera<N> for PerspectiveCamera {
    fn generate_ray(
        &self,
        image_width: usize,
        image_height: usize,
        image_col: Scalar,
        image_row: Scalar,
        num: &N,
    ) -> (ray: Ray)
        ensures
            self.shoots(image_width, image_height, image_col, image_row, num, ray),
    {
        let tall = num.number(image_height);
        let wide = num.number(image_width);
        let aspect_ratio = num.quotient(tall, wide);
        let point = Vector3::random_in_unit_disk(num);
        let scaled = point.scale(self.aperture, num);
        let offset = scaled.over(Scalar::from_bits(TWO_BITS), num);
        assert(self.lens(num, offset));
        let up = span_to(num, image_row, image_height, self.tan_half_fov, self.focal_depth);
        let z = num.product(up, aspect_ratio);
        let x = span_to(num, image_col, image_width, self.tan_half_fov, self.focal_depth);
        let target = Vector3(x, self.focal_depth, z.negate());
        assert(divides(num, tall, wide, aspect_ratio));
        assert(multiplies(num, up, aspect_ratio, z));
        assert(self.focus(image_width, image_height, image_col, image_row, num, target));
        let direction = aim_at(num, target, offset);
        let ray = Ray::new(offset, direction);
        ray.transform(&self.transform, true, num)
    }
}

} // verus!
