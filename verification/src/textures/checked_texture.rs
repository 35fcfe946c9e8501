use vstd::prelude::*;
use crate::data_structures::color::Color;
use crate::maths::scalar::{Scalar, HALF_BITS, ZERO_BITS};
use crate::maths::vector3::Vector3;
use crate::traits::arithmetic::{multiplies, subtracts, Arithmetic};
use crate::traits::texture::Texture;

verus! {

/// Two colours in four fields: the first colour where `u` and `v` lie on
/// different sides of one half, the second where they lie on the same.
pub struct CheckedTexture {
    pub color_a: Color,
    pub color_b: Color,
}

impl CheckedTexture {
    /// What `value` may return at `(u, v)`: the first colour where
    /// `(u - 0.5) * (v - 0.5)` is below zero, else the second.
    pub open spec fn colors<N: Arithmetic>(self, u: Scalar, v: Scalar, num: &N, color: Color) -> bool {
        exists|across: Scalar, along: Scalar, sign: Scalar|
            {
                &&& subtracts(num, u, Scalar { bits: HALF_BITS }, across)
                &&& subtracts(num, v, Scalar { bits: HALF_BITS }, along)
                &&& #[trigger] multiplies(num, across, along, sign)
                &&& color == if sign.below(Scalar { bits: ZERO_BITS }) {
                    self.color_a
                } else {
                    self.color_b
                }
            }
    }

    pub fn new(color_a: Color, color_b: Color) -> (texture: Box<CheckedTexture>)
        ensures
            *texture == (CheckedTexture { color_a, color_b }),
    {
        Box::new(CheckedTexture { color_a, color_b })
    }
}

impl<N: Arithmetic> Texture<N> for CheckedTexture {
    fn value(&self, u: Scalar, v: Scalar, _p: Vector3, num: &N) -> (color: Color)
        ensures
            self.colors(u, v, num, color),
    {
        let across = num.difference(u, Scalar::from_bits(HALF_BITS));
        let along = num.difference(v, Scalar::from_bits(HALF_BITS));
        let sign = num.product(across, along);
        assert(multiplies(num, across, along, sign));
        if sign.lt(Scalar::zero()) {
            self.color_a
        } else {
            self.color_b
        }
    }
}

} // verus!
