use vstd::prelude::*;
use crate::data_structures::color::Color;
use crate::data_structures::intersection_payload::IntersectionPayload;
use crate::maths::scalar::{Scalar, ONE_BITS};
use crate::maths::vector3::Vector3;
use crate::materials::lambertian_material::tints;
use crate::traits::arithmetic::Arithmetic;
use crate::traits::texture::Texture;

verus! {

/// A textured surface that reflects the same in every direction.
pub struct Lambertian<T> {
    pub albedo: T,
    pub emmissivity: Scalar,
}

/// `num` may compute `direction` as `normal` and a random direction of
/// length 1 added.
pub open spec fn diffuses<N: Arithmetic>(num: &N, normal: Vector3, direction: Vector3) -> bool {
    exists|turn: Vector3| #[trigger] Vector3::unit_drawn(num, turn) && normal.sums_to(turn, num, direction)
}

/// A direction for light scattered at a surface with the given normal:
/// the normal and a random direction of length 1, added.
pub fn diffuse<N: Arithmetic>(num: &N, normal: Vector3) -> (direction: Vector3)
    ensures
        diffuses(num, normal, direction),
{
    let turn = Vector3::random_unit(num);
    normal.plus(&turn, num)
}

impl<T> Lambertian<T> {
    /// What `transmission` may return: the texture's colour times the
    /// reflectance, which is 1.
    pub open spec fn carries<N: Arithmetic>(
        self,
        payload: IntersectionPayload,
        num: &N,
        color: Color,
    ) -> bool where
        T: Texture<N>,
     {
        exists|albedo: Color| #[trigger]
            tints(&self.albedo, payload, num, albedo) && albedo.scales_to(Scalar { bits: ONE_BITS }, num, color)
    }

    /// What `emmission` may return: the texture's colour times the emissivity.
    pub open spec fn glows<N: Arithmetic>(
        self,
        payload: IntersectionPayload,
        num: &N,
        color: Color,
    ) -> bool where
        T: Texture<N>,
     {
        exists|albedo: Color| #[trigger]
            tints(&self.albedo, payload, num, albedo) && albedo.scales_to(self.emmissivity, num, color)
    }

    pub fn new(albedo: T, emmissivity: Scalar) -> (material: Lambertian<T>)
        ensures
            material == (Lambertian { albedo, emmissivity }),
    {
        Lambertian { albedo, emmissivity }
    }

    pub fn transmission<N: Arithmetic>(
        &self,
        payload: &IntersectionPayload,
        incoming_direction: Vector3,
        outgoing_direction: Vector3,
        num: &N,
    ) -> (color: Color) where T: Texture<N>
        ensures
            self.carries(*payload, num, color),
    {
        let albedo = self.albedo.value(payload.u, payload.v, payload.position, num);
        let color = albedo.scale(self.brdf(payload.normal, incoming_direction, outgoing_direction), num);
        assert(tints(&self.albedo, *payload, num, albedo));
        color
    }

    /// The reflectance: 1 for every pair of directions.
    pub fn brdf(
        &self,
        _normal: Vector3,
        _incoming_direction: Vector3,
        _outgoing_direction: Vector3,
    ) -> (share: Scalar)
        ensures
            share == (Scalar { bits: ONE_BITS }),
    {
        Scalar::one()
    }

    pub fn emmission<N: Arithmetic>(&self, payload: &IntersectionPayload, num: &N) -> (color: Color) where
        T: Texture<N>,

        ensures
            self.glows(*payload, num, color),
    {
        let albedo = self.albedo.value(payload.u, payload.v, payload.position, num);
        let color = albedo.scale(self.emmissivity, num);
        assert(tints(&self.albedo, *payload, num, albedo));
        color
    }

    pub fn generate_direction<N: Arithmetic>(
        &self,
        normal: Vector3,
        _incoming_direction: Vector3,
        num: &N,
    ) -> (direction: Vector3)
        ensures
            diffuses(num, normal, direction),
    {
        diffuse(num, normal)
    }
}

} // verus!
