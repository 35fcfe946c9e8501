use vstd::prelude::*;
use crate::data_structures::color::Color;
use crate::maths::scalar::{Scalar, ONE_BITS};
use crate::maths::vector3::Vector3;
use crate::materials::lambertian::{diffuse, diffuses};
use crate::traits::arithmetic::Arithmetic;

verus! {

/// A surface of one colour that reflects the same in every direction.
pub struct DiffuseMaterial {
    pub albedo: Color,
    pub emmissivity: Scalar,
}

impl DiffuseMaterial {
    pub fn new(albedo: Color, emmissivity: Scalar) -> (material: DiffuseMaterial)
        ensures
            material == (DiffuseMaterial { albedo, emmissivity }),
    {
        DiffuseMaterial { albedo, emmissivity }
    }

    /// The colour times the reflectance, which is 1.
    pub fn transmission<N: Arithmetic>(
        &self,
        normal: Vector3,
        incoming_direction: Vector3,
        outgoing_direction: Vector3,
        num: &N,
    ) -> (color: Color)
        ensures
            self.albedo.scales_to(Scalar { bits: ONE_BITS }, num, color),
    {
        self.albedo.scale(self.brdf(normal, incoming_direction, outgoing_direction), num)
    }

    /// The reflectance: 1 for every pair of directions.
    pub fn brdf(
        &self,
        _normal: Vector3,
        _incoming_direction: Vector3,
        _outgoing_direction: Vector3,
    ) -> (share: Scalar)
        ensures
            share == (Scalar { bits: ONE_BITS }),
    {
        Scalar::one()
    }

    /// The colour times the emissivity.
    pub fn emmission<N: Arithmetic>(&self, num: &N) -> (color: Color)
        ensures
            self.albedo.scales_to(self.emmissivity, num, color),
    {
        self.albedo.scale(self.emmissivity, num)
    }

    pub fn generate_direction<N: Arithmetic>(
        &self,
        normal: Vector3,
        _incoming_direction: Vector3,
        num: &N,
    ) -> (direction: Vector3)
        ensures
            diffuses(num, normal, direction),
    {
        diffuse(num, normal)
    }
}

} // verus!
