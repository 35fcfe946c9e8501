use vstd::prelude::*;
use crate::data_structures::color::Color;
use crate::maths::scalar::Scalar;
use crate::maths::vector3::Vector3;
use crate::traits::arithmetic::Arithmetic;
use crate::traits::texture::Texture;

verus! {

/// One colour all over the surface.
#[derive(Clone, Copy)]
pub struct ConstantTexture {
    pub color: Color,
}

impl<N: Arithmetic> Texture<N> for ConstantTexture {
    fn value(&self, _u: Scalar, _v: Scalar, _p: Vector3, _num: &N) -> (color: Color)
        ensures
            color == self.color,
    {
        self.color
    }
}

impl ConstantTexture {
    pub fn new(color: Color) -> (texture: Box<ConstantTexture>)
        ensures
            texture.color == color,
    {
        Box::new(ConstantTexture { color })
    }
}

} // verus!
