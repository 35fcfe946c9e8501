use vstd::prelude::*;
use crate::data_structures::color::Color;
use crate::maths::scalar::Scalar;
use crate::maths::vector3::Vector3;
use crate::traits::arithmetic::Arithmetic;

verus! {

/// A colour for each point of a surface.
pub trait Texture<N: Arithmetic>: Sync + Send {
    fn value(&self, u: Scalar, v: Scalar, p: Vector3, num: &N) -> Color;
}

impl<N: Arithmetic, T: Texture<N> + ?Sized> Texture<N> for Box<T> {
    fn value(&self, u: Scalar, v: Scalar, p: Vector3, num: &N) -> (color: Color)
        ensures
            call_ensures(T::value, (&**self, u, v, p, num), color),
    {
        (**self).value(u, v, p, num)
    }
}

} // verus!
