use vstd::prelude::*;
use crate::data_structures::color::Color;
use crate::maths::scalar::{Scalar, ONE_BITS, ZERO_BITS};
use crate::maths::vector3::Vector3;
use crate::traits::arithmetic::Arithmetic;

verus! {

/// A mirror; the greater its `reflectance`, the more blurred.
pub struct ReflectiveMaterial {
    pub reflectance: Scalar,
}

impl ReflectiveMaterial {
    /// What `generate_direction` may return: the incoming direction
    /// mirrored at the surface, and a random direction of length 1 times
    /// the reflectance added.
    pub open spec fn mirrors<N: Arithmetic>(
        self,
        normal: Vector3,
        incoming: Vector3,
        num: &N,
        direction: Vector3,
    ) -> bool {
        exists|mirrored: Vector3, turn: Vector3, blur: Vector3|
            {
                &&& #[trigger] incoming.reflects_to(normal, num, mirrored)
                &&& #[trigger] Vector3::unit_drawn(num, turn)
                &&& #[trigger] turn.scales_to(self.reflectance, num, blur)
                &&& mirrored.sums_to(blur, num, direction)
            }
    }

    pub fn new(reflectance: Scalar) -> (material: ReflectiveMaterial)
        ensures
            material == (ReflectiveMaterial { reflectance }),
    {
        ReflectiveMaterial { reflectance }
    }

    /// No light of its own.
    pub fn emmission(&self) -> (color: Color)
        ensures
            color == Color(
                Scalar { bits: ZERO_BITS },
                Scalar { bits: ZERO_BITS },
                Scalar { bits: ZERO_BITS },
                Scalar { bits: ONE_BITS },
            ),
    {
        Color(Scalar::zero(), Scalar::zero(), Scalar::zero(), Scalar::one())
    }

    /// All of the light.
    pub fn transmission(
        &self,
        _normal: Vector3,
        _incoming_direction: Vector3,
        _outgoing_direction: Vector3,
    ) -> (color: Color)
        ensures
            color == Color(
                Scalar { bits: ONE_BITS },
                Scalar { bits: ONE_BITS },
                Scalar { bits: ONE_BITS },
                Scalar { bits: ONE_BITS },
            ),
    {
        Color(Scalar::one(), Scalar::one(), Scalar::one(), Scalar::one())
    }

    /// The reflectance: 1 for every pair of directions.
    pub fn brdf(
        &self,
        _normal: Vector3,
        _incoming_direction: Vector3,
        _outgoing_direction: Vector3,
    ) -> (share: Scalar)
        ensures
            share == (Scalar { bits: ONE_BITS }),
    {
        Scalar::one()
    }

    pub fn generate_direction<N: Arithmetic>(
        &self,
        normal: Vector3,
        incoming_direction: Vector3,
        num: &N,
    ) -> (direction: Vector3)
        ensures
            self.mirrors(normal, incoming_direction, num, direction),
    {
        let mirrored = incoming_direction.reflect(normal, num);
        let turn = Vector3::random_unit(num);
        let blur = turn.scale(self.reflectance, num);
        mirrored.plus(&blur, num)
    }
}

} // verus!
